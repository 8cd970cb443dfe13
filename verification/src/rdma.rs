//! The RDMA data plane as the runtime models it: registered memory regions,
//! queue-pair connections, and transfers that take a microsecond per
//! thousand bytes (1 GB/s).

use vstd::prelude::*;
use crate::kvmap::{keys_unique, seq_to_map, lemma_map_push, lemma_unique_push, lemma_map_update, lemma_map_len};
use crate::text::str_eq;
use crate::types::{NodeId, new_uuid};

verus! {

/// `rand::random::<u32>()`: a random 32-bit number, for memory keys and
/// queue-pair numbers. Nothing is stated of the value.
#[verifier::external_body]
fn random_u32() -> u32 {
    rand::random::<u32>()
}

/// The state of an RDMA connection.
#[derive(Debug, Clone, Copy, PartialEq, Eq, Structural)]
pub enum ConnectionState {
    Idle,
    Connecting,
    Connected,
    Disconnecting,
    Disconnected,
}

/// A registered memory region, with its local and remote keys.
#[derive(Debug, Clone)]
pub struct MemoryRegion {
    pub id: String,
    pub addr: u64,
    pub size: u64,
    pub lkey: u32,
    pub rkey: u32,
}

/// An RDMA connection to a node, over a queue pair.
#[derive(Debug, Clone)]
pub struct RdmaConnection {
    pub node_id: NodeId,
    pub remote_addr: String,
    pub qp_num: u32,
    pub state: ConnectionState,
}

impl RdmaConnection {
    /// A copy of the connection.
    pub fn duplicate(&self) -> (r: Self)
        ensures
            r.node_id == self.node_id,
            r.remote_addr@ == self.remote_addr@,
            r.qp_num == self.qp_num,
            r.state == self.state,
    {
        RdmaConnection {
            node_id: self.node_id,
            remote_addr: self.remote_addr.clone(),
            qp_num: self.qp_num,
            state: self.state,
        }
    }
}

/// Counts of a server's connections and memory regions.
#[derive(Debug, Clone, Copy)]
pub struct ServerStats {
    pub active_connections: usize,
    pub registered_memory_regions: usize,
}

/// Why an RDMA operation failed.
#[derive(Debug, Clone, PartialEq, Eq)]
pub enum RdmaError {
    DeviceNotFound,
    ConnectionFailed(String),
    NotConnected,
    MemoryRegistrationFailed(String),
    TransferFailed(String),
    WorkRequestFailed(String),
    CompletionError(String),
    NodeNotFound(NodeId),
    Internal(String),
}

/// What is known of a registered region: where it starts and its size.
pub struct RegionView {
    pub addr: u64,
    pub size: u64,
}

/// What is known of a connection: the address it reaches and its state.
pub struct ConnectionView {
    pub remote_addr: Seq<char>,
    pub state: ConnectionState,
}

pub open spec fn region_pairs(s: Seq<MemoryRegion>) -> Seq<(Seq<char>, RegionView)> {
    s.map_values(|r: MemoryRegion| (r.id@, RegionView { addr: r.addr, size: r.size }))
}

pub open spec fn connection_pairs(s: Seq<RdmaConnection>) -> Seq<(NodeId, ConnectionView)> {
    s.map_values(|c: RdmaConnection| (c.node_id, ConnectionView { remote_addr: c.remote_addr@, state: c.state }))
}

/// The microseconds a transfer of this many bytes takes at 1 GB/s.
pub fn transfer_time_us(bytes: u64) -> (r: u64)
    ensures
        r == bytes / 1000,
{
    bytes / 1000
}

/// Where the region with this id stands in the table, if anywhere.
fn find_region(regions: &Vec<MemoryRegion>, id: &str) -> (r: Option<usize>)
    ensures
        match r {
            Some(i) => i < regions@.len() && regions@[i as int].id@ == id@,
            None => forall|k: int| 0 <= k < regions@.len() ==> regions@[k].id@ != id@,
        },
{
    let mut i: usize = 0;
    while i < regions.len()
        invariant
            i <= regions@.len(),
            forall|k: int| 0 <= k < i ==> regions@[k].id@ != id@,
        decreases regions@.len() - i,
    {
        if str_eq(regions[i].id.as_str(), id) {
            return Some(i);
        }
        i = i + 1;
    }
    None
}

/// Registers a region in a table keyed by region id; a region with the
/// same id is replaced.
fn put_region(regions: &mut Vec<MemoryRegion>, id: String, addr: u64, size: u64)
    requires
        keys_unique(region_pairs(old(regions)@)),
    ensures
        keys_unique(region_pairs(final(regions)@)),
        seq_to_map(region_pairs(final(regions)@)) == seq_to_map(region_pairs(old(regions)@)).insert(id@, RegionView { addr, size }),
{
    let ghost ps = region_pairs(regions@);
    let ghost v = RegionView { addr, size };
    let found = find_region(regions, id.as_str());
    let ghost key = id@;
    let region = MemoryRegion { id, addr, size, lkey: random_u32(), rkey: random_u32() };
    match found {
        Some(i) => {
            proof {
                lemma_map_update(ps, i as int, v);
            }
            regions.set(i, region);
            assert(region_pairs(regions@) =~= ps.update(i as int, (ps[i as int].0, v)));
        },
        None => {
            proof {
                lemma_unique_push(ps, key, v);
                lemma_map_push(ps, key, v);
            }
            regions.push(region);
            assert(region_pairs(regions@) =~= ps.push((key, v)));
        },
    }
}

/// An RDMA server: its address, its registered regions and its connections.
pub struct RdmaServer {
    bind_addr: String,
    regions: Vec<MemoryRegion>,
    connections: Vec<RdmaConnection>,
}

impl RdmaServer {
    /// At most one region per id and one connection per node.
    pub closed spec fn wf(&self) -> bool {
        &&& keys_unique(region_pairs(self.regions@))
        &&& keys_unique(connection_pairs(self.connections@))
    }

    /// The registered regions, by id.
    pub closed spec fn regions(&self) -> Map<Seq<char>, RegionView> {
        seq_to_map(region_pairs(self.regions@))
    }

    /// The connections, by node.
    pub closed spec fn connections(&self) -> Map<NodeId, ConnectionView> {
        seq_to_map(connection_pairs(self.connections@))
    }

    /// The address the server listens on.
    pub closed spec fn address(&self) -> Seq<char> {
        self.bind_addr@
    }

    /// A server on this address, with no regions and no connections.
    pub fn new(bind_addr: String) -> (r: Result<Self, RdmaError>)
        ensures
            r matches Ok(s) && s.wf() && s.address() == bind_addr@
                && s.regions() == Map::<Seq<char>, RegionView>::empty()
                && s.connections() == Map::<NodeId, ConnectionView>::empty(),
    {
        let s = RdmaServer { bind_addr, regions: Vec::new(), connections: Vec::new() };
        assert(region_pairs(s.regions@) =~= Seq::<(Seq<char>, RegionView)>::empty());
        assert(connection_pairs(s.connections@) =~= Seq::<(NodeId, ConnectionView)>::empty());
        Ok(s)
    }

    /// Registers a memory region under its id, with fresh keys; a region
    /// with the same id is replaced.
    pub fn register_memory_region(&mut self, region_id: String, addr: u64, size: u64) -> (r: Result<(), RdmaError>)
        requires
            old(self).wf(),
        ensures
            r is Ok,
            final(self).wf(),
            final(self).regions() == old(self).regions().insert(region_id@, RegionView { addr, size }),
            final(self).connections() == old(self).connections(),
            final(self).address() == old(self).address(),
    {
        put_region(&mut self.regions, region_id, addr, size);
        Ok(())
    }

    /// Accepts a connection from a node, which gets a fresh id and queue
    /// pair; the connection reaches the server's own address.
    pub fn accept(&mut self) -> (r: Result<(NodeId, RdmaConnection), RdmaError>)
        requires
            old(self).wf(),
        ensures
            final(self).wf(),
            final(self).regions() == old(self).regions(),
            final(self).address() == old(self).address(),
            r matches Ok((id, c)) && c.node_id == id && c.remote_addr@ == old(self).address()
                && c.state == ConnectionState::Connected
                && final(self).connections() == old(self).connections().insert(id, ConnectionView {
                    remote_addr: old(self).address(),
                    state: ConnectionState::Connected,
                }),
    {
        let node_id = new_uuid();
        let connection = RdmaConnection {
            node_id,
            remote_addr: self.bind_addr.clone(),
            qp_num: random_u32(),
            state: ConnectionState::Connected,
        };
        let ghost ps = connection_pairs(self.connections@);
        let ghost v = ConnectionView { remote_addr: self.bind_addr@, state: ConnectionState::Connected };
        match self.find_connection(node_id) {
            Some(i) => {
                proof {
                    lemma_map_update(ps, i as int, v);
                }
                self.connections.set(i, connection.duplicate());
                assert(connection_pairs(self.connections@) =~= ps.update(i as int, (ps[i as int].0, v)));
            },
            None => {
                proof {
                    lemma_unique_push(ps, node_id, v);
                    lemma_map_push(ps, node_id, v);
                }
                self.connections.push(connection.duplicate());
                assert(connection_pairs(self.connections@) =~= ps.push((node_id, v)));
            },
        }
        Ok((node_id, connection))
    }

    fn find_connection(&self, node_id: NodeId) -> (r: Option<usize>)
        ensures
            match r {
                Some(i) => i < self.connections@.len() && self.connections@[i as int].node_id == node_id,
                None => forall|k: int| 0 <= k < self.connections@.len() ==> self.connections@[k].node_id != node_id,
            },
    {
        let mut i: usize = 0;
        while i < self.connections.len()
            invariant
                i <= self.connections@.len(),
                forall|k: int| 0 <= k < i ==> self.connections@[k].node_id != node_id,
            decreases self.connections@.len() - i,
        {
            if self.connections[i].node_id == node_id {
                return Some(i);
            }
            i = i + 1;
        }
        None
    }

    /// Sends tensor data to a node by RDMA write: the microseconds the
    /// transfer takes.
    pub fn send_tensor(&self, node_id: NodeId, tensor_id: &str, data_len: u64) -> (r: Result<u64, RdmaError>)
        ensures
            r == Ok::<u64, RdmaError>(data_len / 1000),
    {
        Ok(transfer_time_us(data_len))
    }

    /// The numbers of connections and registered regions.
    pub fn get_stats(&self) -> (r: ServerStats)
        requires
            self.wf(),
        ensures
            r.active_connections == self.connections().len(),
            r.registered_memory_regions == self.regions().len(),
    {
        proof {
            lemma_map_len(region_pairs(self.regions@));
            lemma_map_len(connection_pairs(self.connections@));
        }
        ServerStats { active_connections: self.connections.len(), registered_memory_regions: self.regions.len() }
    }
}

/// An RDMA client: the server it reaches, its connection once made, and its
/// registered regions.
pub struct RdmaClient {
    server_addr: String,
    connection: Option<RdmaConnection>,
    regions: Vec<MemoryRegion>,
}

impl RdmaClient {
    /// At most one region per id.
    pub closed spec fn wf(&self) -> bool {
        keys_unique(region_pairs(self.regions@))
    }

    /// The registered regions, by id.
    pub closed spec fn regions(&self) -> Map<Seq<char>, RegionView> {
        seq_to_map(region_pairs(self.regions@))
    }

    /// Whether the client is connected.
    pub closed spec fn is_connected(&self) -> bool {
        self.connection is Some
    }

    /// The server the client reaches.
    pub closed spec fn server(&self) -> Seq<char> {
        self.server_addr@
    }

    /// A client of the server at this address, not yet connected.
    pub fn new(server_addr: String) -> (r: Result<Self, RdmaError>)
        ensures
            r matches Ok(c) && c.wf() && c.server() == server_addr@ && !c.is_connected()
                && c.regions() == Map::<Seq<char>, RegionView>::empty(),
    {
        let c = RdmaClient { server_addr, connection: None, regions: Vec::new() };
        assert(region_pairs(c.regions@) =~= Seq::<(Seq<char>, RegionView)>::empty());
        Ok(c)
    }

    /// Connects to the server over a fresh queue pair.
    pub fn connect(&mut self) -> (r: Result<RdmaConnection, RdmaError>)
        requires
            old(self).wf(),
        ensures
            final(self).wf(),
            final(self).is_connected(),
            final(self).server() == old(self).server(),
            final(self).regions() == old(self).regions(),
            r matches Ok(c) && c.remote_addr@ == old(self).server() && c.state == ConnectionState::Connected,
    {
        let connection = RdmaConnection {
            node_id: new_uuid(),
            remote_addr: self.server_addr.clone(),
            qp_num: random_u32(),
            state: ConnectionState::Connected,
        };
        self.connection = Some(connection.duplicate());
        Ok(connection)
    }

    /// Registers a memory region under its id, with fresh keys; a region
    /// with the same id is replaced.
    pub fn register_memory_region(&mut self, region_id: String, addr: u64, size: u64) -> (r: Result<(), RdmaError>)
        requires
            old(self).wf(),
        ensures
            r is Ok,
            final(self).wf(),
            final(self).regions() == old(self).regions().insert(region_id@, RegionView { addr, size }),
            final(self).is_connected() == old(self).is_connected(),
            final(self).server() == old(self).server(),
    {
        put_region(&mut self.regions, region_id, addr, size);
        Ok(())
    }

    /// Reads tensor data by RDMA read: `size` zero bytes, and the
    /// microseconds the transfer takes; refused when not connected.
    pub fn receive_tensor(&self, tensor_id: &str, size: u64) -> (r: Result<(Vec<u8>, u64), RdmaError>)
        requires
            size <= usize::MAX,
        ensures
            !self.is_connected() ==> r == Err::<(Vec<u8>, u64), RdmaError>(RdmaError::NotConnected),
            self.is_connected() ==> (r matches Ok((data, us)) && data@ == Seq::new(size as nat, |i: int| 0u8) && us == size / 1000),
    {
        if self.connection.is_none() {
            return Err(RdmaError::NotConnected);
        }
        let mut data: Vec<u8> = Vec::new();
        let n = size as usize;
        let mut i: usize = 0;
        while i < n
            invariant
                i <= n,
                n == size,
                data@ == Seq::new(i as nat, |k: int| 0u8),
            decreases n - i,
        {
            data.push(0u8);
            assert(data@ =~= Seq::new((i + 1) as nat, |k: int| 0u8));
            i = i + 1;
        }
        Ok((data, transfer_time_us(size)))
    }

    /// Writes tensor data by RDMA write: the microseconds the transfer
    /// takes; refused when not connected.
    pub fn send_tensor(&self, tensor_id: &str, data_len: u64) -> (r: Result<u64, RdmaError>)
        ensures
            !self.is_connected() ==> r == Err::<u64, RdmaError>(RdmaError::NotConnected),
            self.is_connected() ==> r == Ok::<u64, RdmaError>(data_len / 1000),
    {
        if self.connection.is_none() {
            return Err(RdmaError::NotConnected);
        }
        Ok(transfer_time_us(data_len))
    }
}

} // verus!
