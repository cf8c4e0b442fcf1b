use crate::messages::CompileResponse;
use crate::text::str_concat;
use crate::text::owned;
use vstd::prelude::*;

verus! {

// ---------------------------------------------------------------------------
// The model: each known peer address with the number of jobs in flight on it
// ---------------------------------------------------------------------------

/// The loads after `add_peer(address)`: a new address starts with no jobs; a
/// known one keeps its count.
pub open spec fn with_peer(loads: Map<Seq<char>, u32>, address: Seq<char>) -> Map<Seq<char>, u32> {
    if loads.contains_key(address) {
        loads
    } else {
        loads.insert(address, 0)
    }
}

/// `address` is known and no known peer carries fewer jobs.
pub open spec fn is_least_loaded(loads: Map<Seq<char>, u32>, address: Seq<char>) -> bool {
    &&& loads.contains_key(address)
    &&& forall|other: Seq<char>| #[trigger]
        loads.contains_key(other) ==> loads[address] <= loads[other]
}

/// Some known peer can take one more job without its count overflowing.
pub open spec fn has_capacity(loads: Map<Seq<char>, u32>) -> bool {
    exists|a: Seq<char>| #[trigger] loads.contains_key(a) && loads[a] < u32::MAX
}

/// The loads once a job is handed to `address`.
pub open spec fn acquired(loads: Map<Seq<char>, u32>, address: Seq<char>) -> Map<Seq<char>, u32> {
    loads.insert(address, (loads[address] + 1) as u32)
}

/// The loads once a job on `address` has come back: one fewer job there,
/// never below zero; an unknown address changes nothing.
pub open spec fn released(loads: Map<Seq<char>, u32>, address: Seq<char>) -> Map<Seq<char>, u32> {
    if loads.contains_key(address) {
        loads.insert(address, if loads[address] == 0 { 0u32 } else { (loads[address] - 1) as u32 })
    } else {
        loads
    }
}

/// The error a dispatch ends in when no peer is known.
pub open spec fn no_peers_text() -> Seq<char> {
    "No peers available on the network"@
}

/// The error a dispatch ends in when the chosen peer cannot be reached.
pub open spec fn connect_failure_text(detail: Seq<char>) -> Seq<char> {
    "Failed to connect to peer: "@ + detail
}

/// The gRPC endpoint of a peer address.
pub open spec fn endpoint_text(address: Seq<char>) -> Seq<char> {
    "http://"@ + address
}

// ---------------------------------------------------------------------------
// The registry
// ---------------------------------------------------------------------------

/// One known peer and the number of jobs this daemon has in flight on it.
struct PeerLoad {
    address: String,
    jobs: u32,
}

/// The peers this daemon has discovered, each with its number of jobs in
/// flight. Its view maps each peer address to that number.
///
/// The peers are kept in a list that holds each address once, not in a
/// `HashMap<String, u32>`: vstd's contracts for `HashMap` hold only for key
/// types that obey its key model, which it establishes for integer and
/// `bool` keys but not for `String`.
pub struct PeerRegistry {
    peers: Vec<PeerLoad>,
    loads: Ghost<Map<Seq<char>, u32>>,
}

/// What the daemon reports to the registry while it dispatches one task.
pub enum DispatchEvent {
    /// A task is to be sent to the network.
    Start,
    /// Opening a channel to `peer` failed, with the transport's message.
    ConnectFailed { peer: String, detail: String },
    /// The remote call on `peer` failed, with the status's message.
    CallFailed { peer: String, detail: String },
    /// `peer` compiled the task and answered.
    Completed { peer: String, response: CompileResponse },
}

/// What the daemon is to do next.
pub enum DispatchStep {
    /// Open a channel to `endpoint` and send the task to `peer` there.
    Connect { peer: String, endpoint: String },
    /// The dispatch is over, with this result.
    Finished(Result<CompileResponse, String>),
}

impl View for PeerRegistry {
    type V = Map<Seq<char>, u32>;

    closed spec fn view(&self) -> Map<Seq<char>, u32> {
        self.loads@
    }
}

impl PeerRegistry {
    /// The list holds each address once, with the count the view gives it,
    /// and the view holds nothing else.
    pub closed spec fn wf(&self) -> bool {
        consistent(self.peers@, self.loads@)
    }

    /// A registry that knows no peer.
    pub fn new() -> (r: PeerRegistry)
        ensures
            r.wf(),
            r@ == Map::<Seq<char>, u32>::empty(),
    {
        PeerRegistry { peers: Vec::new(), loads: Ghost(Map::empty()) }
    }

    /// The position of `address` in the list, if it is there.
    fn find(&self, address: &String) -> (pos: Option<usize>)
        requires
            self.wf(),
        ensures
            match pos {
                Some(i) => i < self.peers@.len() && self.peers@[i as int].address@ == address@,
                None => !self@.contains_key(address@),
            },
    {
        let n = self.peers.len();
        let mut i: usize = 0;
        while i < n
            invariant
                n == self.peers@.len(),
                0 <= i <= n,
                forall|j: int| 0 <= j < i ==> #[trigger] self.peers@[j].address@ != address@,
            decreases n - i,
        {
            if self.peers[i].address == *address {
                return Some(i);
            }
            i = i + 1;
        }
        proof {
            if self@.contains_key(address@) {
                let k = choose|k: int|
                    0 <= k < self.peers@.len() && #[trigger] self.peers@[k].address@ == address@;
                assert(self.peers@[k].address@ != address@);
            }
        }
        None
    }

    /// Registers a discovered peer; a new one starts with no jobs, a known
    /// one keeps its count.
    pub fn add_peer(&mut self, address: String)
        requires
            old(self).wf(),
        ensures
            final(self).wf(),
            final(self)@ == with_peer(old(self)@, address@),
            final(self)@.dom() == old(self)@.dom().insert(address@),
            !old(self)@.contains_key(address@) ==> final(self)@[address@] == 0,
            forall|other: Seq<char>|
                #![trigger old(self)@.contains_key(other)]
                old(self)@.contains_key(other) ==> final(self)@[other] == old(self)@[other],
    {
        let ghost added = address@;
        match self.find(&address) {
            Some(_) => {},
            None => {
                let entry = PeerLoad { address, jobs: 0 };
                proof { lemma_add_entry(self.peers@, self.loads@, entry); }
                self.loads = Ghost(self.loads@.insert(entry.address@, 0));
                self.peers.push(entry);
            },
        }
        proof { law_add_peer_keeps_loads_all(old(self)@, added); }
    }

    /// The position of a least loaded peer: the first, in the order of
    /// discovery, of those with the fewest jobs.
    fn least_loaded_position(&self) -> (pos: Option<usize>)
        requires
            self.wf(),
        ensures
            match pos {
                Some(i) => i < self.peers@.len() && is_least_loaded(
                    self@,
                    self.peers@[i as int].address@,
                ),
                None => self@.dom().is_empty(),
            },
    {
        let n = self.peers.len();
        if n == 0 {
            proof {
                if !self@.dom().is_empty() {
                    let a = self@.dom().choose();
                    assert(self@.contains_key(a));
                }
            }
            return None;
        }
        let mut best: usize = 0;
        let mut i: usize = 1;
        while i < n
            invariant
                n == self.peers@.len(),
                1 <= i <= n,
                best < i,
                forall|j: int|
                    0 <= j < i ==> self.peers@[best as int].jobs <= #[trigger] self.peers@[j].jobs,
            decreases n - i,
        {
            if self.peers[i].jobs < self.peers[best].jobs {
                best = i;
            }
            i = i + 1;
        }
        proof {
            assert forall|other: Seq<char>| #[trigger]
                self@.contains_key(other) implies self@[self.peers@[best as int].address@]
                <= self@[other] by {
                let k = choose|k: int|
                    0 <= k < self.peers@.len() && #[trigger] self.peers@[k].address@ == other;
                assert(self.peers@[k].jobs >= self.peers@[best as int].jobs);
            }
        }
        Some(best)
    }

    /// A peer with the fewest jobs in flight, or `None` when no peer is known.
    pub fn least_loaded(&self) -> (peer: Option<String>)
        requires
            self.wf(),
        ensures
            match peer {
                Some(a) => is_least_loaded(self@, a@),
                None => self@.dom().is_empty(),
            },
    {
        match self.least_loaded_position() {
            Some(i) => Some(self.peers[i].address.clone()),
            None => None,
        }
    }

    /// The number of jobs in flight on `address`, or `None` for an unknown
    /// peer.
    pub fn jobs_of(&self, address: &String) -> (jobs: Option<u32>)
        requires
            self.wf(),
        ensures
            match jobs {
                Some(n) => self@.contains_key(address@) && self@[address@] == n,
                None => !self@.contains_key(address@),
            },
    {
        match self.find(address) {
            Some(i) => Some(self.peers[i].jobs),
            None => None,
        }
    }

    /// Whether `dispatch(Start)` may be called: no peer is known, or some
    /// known peer can count one more job.
    pub fn can_start_dispatch(&self) -> (ok: bool)
        requires
            self.wf(),
        ensures
            ok == (self@.dom().is_empty() || has_capacity(self@)),
    {
        let n = self.peers.len();
        if n == 0 {
            proof {
                if !self@.dom().is_empty() {
                    let a = self@.dom().choose();
                    assert(self@.contains_key(a));
                }
            }
            return true;
        }
        let mut i: usize = 0;
        while i < n
            invariant
                self.wf(),
                n == self.peers@.len(),
                0 <= i <= n,
                forall|j: int| 0 <= j < i ==> #[trigger] self.peers@[j].jobs == u32::MAX,
            decreases n - i,
        {
            if self.peers[i].jobs < u32::MAX {
                assert(self@.contains_key(self.peers@[i as int].address@));
                return true;
            }
            i = i + 1;
        }
        proof {
            assert(self@.contains_key(self.peers@[0].address@));
            if has_capacity(self@) {
                let a = choose|a: Seq<char>| #[trigger] self@.contains_key(a) && self@[a] < u32::MAX;
                let k = choose|k: int| 0 <= k < self.peers@.len() && #[trigger] self.peers@[k].address@ == a;
                assert(self.peers@[k].jobs == u32::MAX);
            }
        }
        false
    }

    /// Counts one job on `address` as done: one fewer, never below zero; an
    /// unknown address changes nothing.
    fn release(&mut self, address: &String)
        requires
            old(self).wf(),
        ensures
            final(self).wf(),
            final(self)@ == released(old(self)@, address@),
    {
        match self.find(address) {
            None => {},
            Some(i) => {
                let old_entry = &self.peers[i];
                let updated = PeerLoad {
                    address: old_entry.address.clone(),
                    jobs: old_entry.jobs.saturating_sub(1),
                };
                proof { lemma_set_count(self.peers@, self.loads@, i as int, updated); }
                self.loads = Ghost(self.loads@.insert(updated.address@, updated.jobs));
                self.peers.set(i, updated);
            },
        }
    }

    /// One step of dispatching a task to the least loaded peer.
    ///
    /// `Start` picks the peer and counts one more job on it. Every event that
    /// ends the dispatch counts that job as done again: `Completed` hands the
    /// response back, a failure ends the dispatch with its message.
    pub fn dispatch(&mut self, event: DispatchEvent) -> (step: DispatchStep)
        requires
            old(self).wf(),
            event is Start ==> old(self)@.dom().is_empty() || has_capacity(old(self)@),
        ensures
            final(self).wf(),
            match event {
                DispatchEvent::Start => if old(self)@.dom().is_empty() {
                    &&& final(self)@ == old(self)@
                    &&& step matches DispatchStep::Finished(Err(e)) && e@ == no_peers_text()
                        && e@ == "No peers available on the network"@
                } else {
                    &&& step matches DispatchStep::Connect { peer, endpoint }
                    &&& is_least_loaded(old(self)@, peer@)
                    &&& old(self)@.contains_key(peer@)
                    &&& forall|other: Seq<char>| #[trigger]
                        old(self)@.contains_key(other) ==> old(self)@[peer@] <= old(self)@[other]
                    &&& endpoint@ == endpoint_text(peer@)
                    &&& endpoint@ == "http://"@ + peer@
                    &&& final(self)@ == acquired(old(self)@, peer@)
                    &&& final(self)@.dom() == old(self)@.dom()
                    &&& final(self)@[peer@] == old(self)@[peer@] + 1
                    &&& forall|other: Seq<char>| #[trigger]
                        old(self)@.contains_key(other) && other != peer@ ==> final(self)@[other]
                            == old(self)@[other]
                },
                DispatchEvent::ConnectFailed { peer, detail } => {
                    &&& final(self)@ == released(old(self)@, peer@)
                    &&& step matches DispatchStep::Finished(Err(e)) && e@ == connect_failure_text(
                        detail@,
                    ) && e@ == "Failed to connect to peer: "@ + detail@
                },
                DispatchEvent::CallFailed { peer, detail } => {
                    &&& final(self)@ == released(old(self)@, peer@)
                    &&& step matches DispatchStep::Finished(Err(e)) && e@ == detail@
                },
                DispatchEvent::Completed { peer, response } => {
                    &&& final(self)@ == released(old(self)@, peer@)
                    &&& step == DispatchStep::Finished(Ok(response))
                },
            },
    {
        match event {
            DispatchEvent::Start => {
                match self.least_loaded_position() {
                    None => DispatchStep::Finished(Err(owned("No peers available on the network"))),
                    Some(i) => {
                        proof {
                            let a = choose|a: Seq<char>|
                                #[trigger] self@.contains_key(a) && self@[a] < u32::MAX;
                            assert(self@[self.peers@[i as int].address@] <= self@[a]);
                        }
                        let old_entry = &self.peers[i];
                        let peer = old_entry.address.clone();
                        let endpoint = str_concat("http://", peer.as_str());
                        let updated = PeerLoad { address: old_entry.address.clone(), jobs: old_entry.jobs + 1 };
                        proof { lemma_set_count(self.peers@, self.loads@, i as int, updated); }
                        self.loads = Ghost(self.loads@.insert(updated.address@, updated.jobs));
                        self.peers.set(i, updated);
                        DispatchStep::Connect { peer, endpoint }
                    },
                }
            },
            DispatchEvent::ConnectFailed { peer, detail } => {
                self.release(&peer);
                DispatchStep::Finished(Err(str_concat("Failed to connect to peer: ", detail.as_str())))
            },
            DispatchEvent::CallFailed { peer, detail } => {
                self.release(&peer);
                DispatchStep::Finished(Err(detail))
            },
            DispatchEvent::Completed { peer, response } => {
                self.release(&peer);
                DispatchStep::Finished(Ok(response))
            },
        }
    }
}

// ---------------------------------------------------------------------------
// Laws of the registry
// ---------------------------------------------------------------------------

/// A whole dispatch, from `Start` to the event that ends it (completion or
/// either failure), adds and removes no peer and leaves every load as it
/// was. On an empty registry `Start` alone ends it, with nothing changed.
pub proof fn law_dispatch_round_trip(
    r0: PeerRegistry,
    r1: PeerRegistry,
    r2: PeerRegistry,
    ev: DispatchEvent,
    step1: DispatchStep,
    step2: DispatchStep,
)
    requires
        r0.wf(),
        !r0@.dom().is_empty(),
        has_capacity(r0@),
        // r1 and step1: what dispatch(Start) promises on r0
        step1 matches DispatchStep::Connect { peer, endpoint } && is_least_loaded(r0@, peer@)
            && r1@ == acquired(r0@, peer@),
        // r2 and step2: what dispatch(ev) promises on r1, for an event about that peer
        step1 matches DispatchStep::Connect { peer, endpoint } && match ev {
            DispatchEvent::ConnectFailed { peer: p, detail } => p@ == peer@ && r2@ == released(
                r1@,
                p@,
            ),
            DispatchEvent::CallFailed { peer: p, detail } => p@ == peer@ && r2@ == released(
                r1@,
                p@,
            ),
            DispatchEvent::Completed { peer: p, response } => p@ == peer@ && r2@ == released(
                r1@,
                p@,
            ),
            DispatchEvent::Start => false,
        },
    ensures
        r2@.dom() == r0@.dom(),
        r2@ == r0@,
{
    if let DispatchStep::Connect { peer, endpoint } = step1 {
        assert(r0@[peer@] <= r0@[choose|a: Seq<char>| #[trigger] r0@.contains_key(a) && r0@[a]
            < u32::MAX]);
        law_finished_dispatch_restores_loads(r0@, peer@);
    }
}

/// Registering a peer adds exactly that address; a new address starts with
/// no jobs, whatever the other loads are, and every known load is kept.
pub proof fn law_add_peer_keeps_loads_all(loads: Map<Seq<char>, u32>, address: Seq<char>)
    ensures
        with_peer(loads, address).dom() == loads.dom().insert(address),
        !loads.contains_key(address) ==> with_peer(loads, address)[address] == 0,
        forall|other: Seq<char>|
            #![trigger loads.contains_key(other)]
            loads.contains_key(other) ==> with_peer(loads, address)[other] == loads[other],
{
    assert(with_peer(loads, address).dom() =~= loads.dom().insert(address));
}

/// The endpoint of a peer is "http://" followed by the whole address, with
/// nothing cut and nothing added.
pub proof fn law_endpoint_keeps_address(address: Seq<char>)
    ensures
        endpoint_text(address).len() == "http://"@.len() + address.len(),
        endpoint_text(address).take("http://"@.len() as int) == "http://"@,
        endpoint_text(address).skip("http://"@.len() as int) == address,
{
    assert(endpoint_text(address).take("http://"@.len() as int) =~= "http://"@);
    assert(endpoint_text(address).skip("http://"@.len() as int) =~= address);
}

/// Taking a job off a busy known peer lowers its count by exactly one.
pub proof fn law_release_counts_one_job(loads: Map<Seq<char>, u32>, address: Seq<char>)
    requires
        loads.contains_key(address),
        loads[address] > 0,
    ensures
        released(loads, address)[address] == loads[address] - 1,
{
}

/// A least loaded peer carries no more jobs than any known peer.
pub proof fn law_least_loaded_is_minimal(
    loads: Map<Seq<char>, u32>,
    address: Seq<char>,
    other: Seq<char>,
)
    requires
        is_least_loaded(loads, address),
        loads.contains_key(other),
    ensures
        loads.contains_key(address),
        loads[address] <= loads[other],
{
}

/// Registering a peer twice is the same as registering it once.
pub proof fn law_add_peer_idempotent(loads: Map<Seq<char>, u32>, address: Seq<char>)
    ensures
        with_peer(with_peer(loads, address), address) == with_peer(loads, address),
{
}

/// Registering a peer forgets no known peer and changes no known load; the
/// registered peer is known afterwards.
pub proof fn law_add_peer_keeps_loads(
    loads: Map<Seq<char>, u32>,
    address: Seq<char>,
    other: Seq<char>,
)
    ensures
        with_peer(loads, address).contains_key(address),
        loads.contains_key(other) ==> with_peer(loads, address).contains_key(other)
            && with_peer(loads, address)[other] == loads[other],
{
}

/// Handing a job to a known peer adds one to its load and to no other.
pub proof fn law_acquire_counts_one_job(
    loads: Map<Seq<char>, u32>,
    address: Seq<char>,
    other: Seq<char>,
)
    requires
        loads.contains_key(address),
        loads[address] < u32::MAX,
    ensures
        acquired(loads, address).dom() == loads.dom(),
        acquired(loads, address)[address] == loads[address] + 1,
        other != address ==> acquired(loads, address)[other] == loads[other],
{
    assert(acquired(loads, address).dom() =~= loads.dom());
}

/// A finished dispatch, whether it completed or failed, leaves the loads as
/// it found them: the job counted on the chosen peer when it started is
/// taken off when it ends.
pub proof fn law_finished_dispatch_restores_loads(loads: Map<Seq<char>, u32>, address: Seq<char>)
    requires
        loads.contains_key(address),
        loads[address] < u32::MAX,
    ensures
        released(acquired(loads, address), address) == loads,
{
    assert(released(acquired(loads, address), address) =~= loads);
}

/// Taking a job off a peer never touches another peer, and an idle peer
/// stays at zero.
pub proof fn law_release_saturates(
    loads: Map<Seq<char>, u32>,
    address: Seq<char>,
    other: Seq<char>,
)
    ensures
        released(loads, address).dom() == loads.dom(),
        other != address && loads.contains_key(other) ==> released(loads, address)[other]
            == loads[other],
        loads.contains_key(address) && loads[address] == 0 ==> released(loads, address)[address]
            == 0,
{
    assert(released(loads, address).dom() =~= loads.dom());
}

/// `peers` lists each address once, with the count `loads` gives it, and
/// `loads` holds no other address.
spec fn consistent(peers: Seq<PeerLoad>, loads: Map<Seq<char>, u32>) -> bool {
    &&& forall|i: int, j: int|
        0 <= i < j < peers.len() ==> #[trigger] peers[i].address@ != #[trigger] peers[j].address@
    &&& forall|i: int|
        0 <= i < peers.len() ==> {
            &&& loads.contains_key(#[trigger] peers[i].address@)
            &&& loads[peers[i].address@] == peers[i].jobs
        }
    &&& forall|a: Seq<char>| #[trigger]
        loads.contains_key(a) ==> exists|i: int| 0 <= i < peers.len() && #[trigger] peers[i].address@ == a
}

/// Adding an entry for an unknown address, in the list and in the map alike,
/// keeps the two consistent.
proof fn lemma_add_entry(peers: Seq<PeerLoad>, loads: Map<Seq<char>, u32>, entry: PeerLoad)
    requires
        consistent(peers, loads),
        !loads.contains_key(entry.address@),
    ensures
        consistent(peers.push(entry), loads.insert(entry.address@, entry.jobs)),
{
    let np = peers.push(entry);
    let nl = loads.insert(entry.address@, entry.jobs);
    assert forall|i: int, j: int| 0 <= i < j < np.len() implies #[trigger] np[i].address@
        != #[trigger] np[j].address@ by {
        if j == peers.len() {
            assert(loads.contains_key(peers[i].address@));
        }
    }
    assert forall|j: int| 0 <= j < np.len() implies {
        &&& nl.contains_key(#[trigger] np[j].address@)
        &&& nl[np[j].address@] == np[j].jobs
    } by {
        if j < peers.len() {
            assert(loads.contains_key(peers[j].address@));
        }
    }
    assert forall|a: Seq<char>| #[trigger] nl.contains_key(a) implies exists|j: int|
        0 <= j < np.len() && #[trigger] np[j].address@ == a by {
        if a == entry.address@ {
            assert(np[peers.len() as int].address@ == a);
        } else {
            let k = choose|k: int| 0 <= k < peers.len() && #[trigger] peers[k].address@ == a;
            assert(np[k].address@ == a);
        }
    }
}

/// Giving the entry at `i` a new count, in the list and in the map alike,
/// keeps the two consistent.
proof fn lemma_set_count(
    peers: Seq<PeerLoad>,
    loads: Map<Seq<char>, u32>,
    i: int,
    entry: PeerLoad,
)
    requires
        consistent(peers, loads),
        0 <= i < peers.len(),
        entry.address@ == peers[i].address@,
    ensures
        consistent(peers.update(i, entry), loads.insert(entry.address@, entry.jobs)),
{
    let np = peers.update(i, entry);
    let nl = loads.insert(entry.address@, entry.jobs);
    assert forall|j: int| 0 <= j < np.len() implies {
        &&& nl.contains_key(#[trigger] np[j].address@)
        &&& nl[np[j].address@] == np[j].jobs
    } by {
        if j != i {
            assert(peers[j].address@ != peers[i].address@);
        }
    }
    assert forall|a: Seq<char>| #[trigger] nl.contains_key(a) implies exists|j: int|
        0 <= j < np.len() && #[trigger] np[j].address@ == a by {
        if a == entry.address@ {
            assert(np[i].address@ == a);
        } else {
            let k = choose|k: int| 0 <= k < peers.len() && #[trigger] peers[k].address@ == a;
            assert(np[k].address@ == a);
        }
    }
}

} // verus!
