//! The tensor directory: where each tensor of the cluster lives.
//!
//! It keeps one entry per tensor id and, per node, the list of tensor ids
//! placed on it, in the order the placements were made.

use vstd::prelude::*;
use crate::kvmap::{keys_unique, seq_to_map, lemma_map_absent, lemma_map_lookup, lemma_map_domain, lemma_map_push, lemma_unique_push, lemma_map_update, lemma_map_remove, lemma_map_len};
use crate::text::str_eq;
use crate::types::{NodeId, SessionId, TensorId, Timestamp, PhysicalPlacement, PlacementView, PlacementRole, now_millis};

verus! {

/// A directory entry.
#[derive(Debug)]
pub struct TensorEntry {
    pub tensor_id: TensorId,
    pub shape: Vec<usize>,
    pub dtype: String,
    pub placements: Vec<PhysicalPlacement>,
    pub version: u64,
    pub mutable: bool,
    pub owner_session: Option<SessionId>,
    pub created_at: Timestamp,
    pub last_accessed: Timestamp,
}

/// What an entry says.
pub struct EntryView {
    pub tensor_id: Seq<char>,
    pub shape: Seq<usize>,
    pub dtype: Seq<char>,
    pub placements: Seq<PlacementView>,
    pub version: u64,
    pub mutable: bool,
    pub owner_session: Option<SessionId>,
    pub created_at: Timestamp,
    pub last_accessed: Timestamp,
}

pub open spec fn placements_view(s: Seq<PhysicalPlacement>) -> Seq<PlacementView> {
    s.map_values(|p: PhysicalPlacement| p@)
}

impl View for TensorEntry {
    type V = EntryView;

    open spec fn view(&self) -> EntryView {
        EntryView {
            tensor_id: self.tensor_id@,
            shape: self.shape@,
            dtype: self.dtype@,
            placements: placements_view(self.placements@),
            version: self.version,
            mutable: self.mutable,
            owner_session: self.owner_session,
            created_at: self.created_at,
            last_accessed: self.last_accessed,
        }
    }
}

fn clone_placements(v: &Vec<PhysicalPlacement>) -> (r: Vec<PhysicalPlacement>)
    ensures
        placements_view(r@) == placements_view(v@),
{
    let mut r: Vec<PhysicalPlacement> = Vec::new();
    let mut i: usize = 0;
    while i < v.len()
        invariant
            i <= v.len(),
            r@.len() == i,
            forall|j: int| 0 <= j < i ==> r@[j]@ == v@[j]@,
        decreases v.len() - i,
    {
        r.push(v[i].clone());
        i = i + 1;
    }
    assert(placements_view(r@) =~= placements_view(v@));
    r
}

fn clone_shape(v: &Vec<usize>) -> (r: Vec<usize>)
    ensures
        r@ == v@,
{
    let mut r: Vec<usize> = Vec::new();
    let mut i: usize = 0;
    while i < v.len()
        invariant
            i <= v.len(),
            r@ == v@.take(i as int),
        decreases v.len() - i,
    {
        r.push(v[i]);
        i = i + 1;
        assert(r@ =~= v@.take(i as int));
    }
    assert(v@.take(i as int) =~= v@);
    r
}

impl Clone for TensorEntry {
    fn clone(&self) -> (r: Self)
        ensures
            r@ == self@,
    {
        TensorEntry {
            tensor_id: self.tensor_id.clone(),
            shape: clone_shape(&self.shape),
            dtype: self.dtype.clone(),
            placements: clone_placements(&self.placements),
            version: self.version,
            mutable: self.mutable,
            owner_session: self.owner_session,
            created_at: self.created_at,
            last_accessed: self.last_accessed,
        }
    }
}

/// Errors of the directory.
#[derive(Debug, Clone, PartialEq, Eq)]
pub enum DirectoryError {
    TensorNotFound(TensorId),
    NotOnSourceNode,
}

/// Directory statistics.
#[derive(Debug, Clone, Copy)]
pub struct DirectoryStats {
    pub total_tensors: usize,
    pub total_placements: usize,
    pub mutable_count: usize,
    pub node_count: usize,
}

/// The directory as a pair of maps: tensor id to entry, node to the ids
/// placed on it.
pub struct DirectoryView {
    pub tensors: Map<Seq<char>, EntryView>,
    pub node_index: Map<NodeId, Seq<Seq<char>>>,
}

pub open spec fn tensor_pairs(s: Seq<TensorEntry>) -> Seq<(Seq<char>, EntryView)> {
    s.map_values(|e: TensorEntry| (e.tensor_id@, e@))
}

pub open spec fn ids_view(s: Seq<String>) -> Seq<Seq<char>> {
    s.map_values(|t: String| t@)
}

pub open spec fn node_pairs(s: Seq<(NodeId, Vec<String>)>) -> Seq<(NodeId, Seq<Seq<char>>)> {
    s.map_values(|p: (NodeId, Vec<String>)| (p.0, ids_view(p.1@)))
}

/// The ids listed for a node, empty when it has none.
pub open spec fn ids_on(m: Map<NodeId, Seq<Seq<char>>>, node: NodeId) -> Seq<Seq<char>> {
    if m.contains_key(node) {
        m[node]
    } else {
        Seq::empty()
    }
}

/// The placements that are not on `node`, in order.
pub open spec fn keep_off_node(s: Seq<PlacementView>, node: NodeId) -> Seq<PlacementView>
    decreases s.len(),
{
    if s.len() == 0 {
        Seq::empty()
    } else if s.last().node_id != node {
        keep_off_node(s.drop_last(), node).push(s.last())
    } else {
        keep_off_node(s.drop_last(), node)
    }
}

/// The ids other than `id`, in order.
pub open spec fn drop_id(s: Seq<Seq<char>>, id: Seq<char>) -> Seq<Seq<char>>
    decreases s.len(),
{
    if s.len() == 0 {
        Seq::empty()
    } else if s.last() != id {
        drop_id(s.drop_last(), id).push(s.last())
    } else {
        drop_id(s.drop_last(), id)
    }
}

/// An entry without its placements on `node`, one version later.
pub open spec fn without_node(e: EntryView, node: NodeId) -> EntryView {
    EntryView { placements: keep_off_node(e.placements, node), version: (e.version + 1) as u64, ..e }
}

/// The tensors after the placement `p` is added to the tensor `id`, one
/// version later.
pub open spec fn with_placement(t: Map<Seq<char>, EntryView>, id: Seq<char>, p: PlacementView) -> Map<Seq<char>, EntryView> {
    t.insert(id, EntryView { placements: t[id].placements.push(p), version: (t[id].version + 1) as u64, ..t[id] })
}

/// Whether some placement of `s` is on `node`.
pub open spec fn placed_on(s: Seq<PlacementView>, node: NodeId) -> bool {
    exists|i: int| 0 <= i < s.len() && #[trigger] s[i].node_id == node
}

/// The tensors after removing `node`'s placement from the tensor `id`:
/// the entry goes away when no placement is left.
pub open spec fn drop_placement(t: Map<Seq<char>, EntryView>, id: Seq<char>, node: NodeId) -> Map<Seq<char>, EntryView> {
    if !t.contains_key(id) {
        t
    } else if keep_off_node(t[id].placements, node).len() == 0 {
        t.remove(id)
    } else {
        t.insert(id, without_node(t[id], node))
    }
}

/// Evicting `node` from the tensors listed in `ids`, one after the other:
/// the tensors left, and the ids of the tensors that lost their last placement.
pub open spec fn evict_fold(t: Map<Seq<char>, EntryView>, ids: Seq<Seq<char>>, node: NodeId) -> (Map<Seq<char>, EntryView>, Seq<Seq<char>>)
    decreases ids.len(),
{
    if ids.len() == 0 {
        (t, Seq::empty())
    } else {
        let (t1, ev) = evict_fold(t, ids.drop_last(), node);
        let id = ids.last();
        if t1.contains_key(id) && keep_off_node(t1[id].placements, node).len() == 0 {
            (t1.remove(id), ev.push(id))
        } else {
            (drop_placement(t1, id, node), ev)
        }
    }
}

/// The entries listed for a node that are still in the directory, in list order.
pub open spec fn listed_entries(t: Map<Seq<char>, EntryView>, ids: Seq<Seq<char>>) -> Seq<EntryView>
    decreases ids.len(),
{
    if ids.len() == 0 {
        Seq::empty()
    } else if t.contains_key(ids.last()) {
        listed_entries(t, ids.drop_last()).push(t[ids.last()])
    } else {
        listed_entries(t, ids.drop_last())
    }
}

pub open spec fn entries_view(s: Seq<TensorEntry>) -> Seq<EntryView> {
    s.map_values(|e: TensorEntry| e@)
}

pub open spec fn total_placements(s: Seq<EntryView>) -> int
    decreases s.len(),
{
    if s.len() == 0 {
        0
    } else {
        total_placements(s.drop_last()) + s.last().placements.len()
    }
}

pub open spec fn count_mutable(s: Seq<EntryView>) -> int
    decreases s.len(),
{
    if s.len() == 0 {
        0
    } else {
        count_mutable(s.drop_last()) + if s.last().mutable { 1int } else { 0 }
    }
}

/// The node index after dropping `id` from `node`'s list; an emptied list goes away.
pub open spec fn index_drop(m: Map<NodeId, Seq<Seq<char>>>, node: NodeId, id: Seq<char>) -> Map<NodeId, Seq<Seq<char>>> {
    if !m.contains_key(node) {
        m
    } else if drop_id(m[node], id).len() == 0 {
        m.remove(node)
    } else {
        m.insert(node, drop_id(m[node], id))
    }
}

/// Each entry can take `n` more version increments without overflow.
pub open spec fn version_headroom(t: Map<Seq<char>, EntryView>, n: int) -> bool {
    forall|k: Seq<char>| #[trigger] t.contains_key(k) ==> t[k].version + n <= u64::MAX
}

/// The entries owned by a session, in order.
pub open spec fn owned_by(s: Seq<EntryView>, session: SessionId) -> Seq<EntryView>
    decreases s.len(),
{
    if s.len() == 0 {
        Seq::empty()
    } else if s.last().owner_session == Some(session) {
        owned_by(s.drop_last(), session).push(s.last())
    } else {
        owned_by(s.drop_last(), session)
    }
}

/// The entries placed on more than one node or mutable, in order.
pub open spec fn needing_replication(s: Seq<EntryView>) -> Seq<EntryView>
    decreases s.len(),
{
    if s.len() == 0 {
        Seq::empty()
    } else if s.last().placements.len() > 1 || s.last().mutable {
        needing_replication(s.drop_last()).push(s.last())
    } else {
        needing_replication(s.drop_last())
    }
}

/// The first placement on `node`.
pub open spec fn first_on_node(s: Seq<PlacementView>, node: NodeId) -> Option<PlacementView>
    decreases s.len(),
{
    if s.len() == 0 {
        None
    } else if s[0].node_id == node {
        Some(s[0])
    } else {
        first_on_node(s.drop_first(), node)
    }
}

fn filter_off_node(v: &Vec<PhysicalPlacement>, node: NodeId) -> (r: Vec<PhysicalPlacement>)
    ensures
        placements_view(r@) == keep_off_node(placements_view(v@), node),
{
    let ghost pv = placements_view(v@);
    let mut r: Vec<PhysicalPlacement> = Vec::new();
    let mut i: usize = 0;
    assert(pv.take(0) =~= Seq::<PlacementView>::empty());
    assert(placements_view(r@) =~= Seq::<PlacementView>::empty());
    while i < v.len()
        invariant
            i <= v.len(),
            pv == placements_view(v@),
            placements_view(r@) == keep_off_node(pv.take(i as int), node),
        decreases v.len() - i,
    {
        assert(pv.take(i + 1).drop_last() =~= pv.take(i as int));
        if v[i].node_id != node {
            let ghost before = r@;
            r.push(v[i].clone());
            assert(placements_view(r@) =~= placements_view(before).push(pv[i as int]));
        }
        i = i + 1;
    }
    assert(pv.take(i as int) =~= pv);
    r
}

fn filter_ids(v: &Vec<String>, id: &str) -> (r: Vec<String>)
    ensures
        ids_view(r@) == drop_id(ids_view(v@), id@),
{
    let ghost iv = ids_view(v@);
    let mut r: Vec<String> = Vec::new();
    let mut i: usize = 0;
    assert(iv.take(0) =~= Seq::<Seq<char>>::empty());
    assert(ids_view(r@) =~= Seq::<Seq<char>>::empty());
    while i < v.len()
        invariant
            i <= v.len(),
            iv == ids_view(v@),
            ids_view(r@) == drop_id(iv.take(i as int), id@),
        decreases v.len() - i,
    {
        assert(iv.take(i + 1).drop_last() =~= iv.take(i as int));
        if !str_eq(v[i].as_str(), id) {
            let ghost before = r@;
            r.push(v[i].clone());
            assert(ids_view(r@) =~= ids_view(before).push(iv[i as int]));
        }
        i = i + 1;
    }
    assert(iv.take(i as int) =~= iv);
    r
}

/// Tracks tensor locations across the cluster.
pub struct TensorDirectory {
    tensors: Vec<TensorEntry>,
    node_tensors: Vec<(NodeId, Vec<String>)>,
}

impl View for TensorDirectory {
    type V = DirectoryView;

    closed spec fn view(&self) -> DirectoryView {
        DirectoryView {
            tensors: seq_to_map(tensor_pairs(self.tensors@)),
            node_index: seq_to_map(node_pairs(self.node_tensors@)),
        }
    }
}

impl TensorDirectory {
    /// The directory's representation is consistent: one entry per tensor id,
    /// one list per node, and no empty list.
    pub closed spec fn wf(&self) -> bool {
        &&& keys_unique(tensor_pairs(self.tensors@))
        &&& keys_unique(node_pairs(self.node_tensors@))
        &&& forall|i: int| 0 <= i < self.node_tensors@.len() ==> #[trigger] self.node_tensors@[i].1@.len() > 0
    }

    /// The entries, each once, in some order.
    pub closed spec fn entries(&self) -> Seq<EntryView> {
        entries_view(self.tensors@)
    }

    /// The entries are exactly the map's values, each once.
    pub proof fn lemma_entries(&self)
        requires
            self.wf(),
        ensures
            self.entries().len() == self@.tensors.len(),
            forall|i: int| 0 <= i < self.entries().len() ==> self@.tensors.contains_key(#[trigger] self.entries()[i].tensor_id)
                && self@.tensors[self.entries()[i].tensor_id] == self.entries()[i],
            forall|k: Seq<char>| self@.tensors.contains_key(k) ==> exists|i: int| 0 <= i < self.entries().len() && #[trigger] self.entries()[i].tensor_id == k,
    {
        let ps = tensor_pairs(self.tensors@);
        lemma_map_len(ps);
        assert forall|i: int| 0 <= i < self.entries().len() implies self@.tensors.contains_key(#[trigger] self.entries()[i].tensor_id)
            && self@.tensors[self.entries()[i].tensor_id] == self.entries()[i] by {
            lemma_map_lookup(ps, i);
        }
        assert forall|k: Seq<char>| self@.tensors.contains_key(k) implies exists|i: int| 0 <= i < self.entries().len() && #[trigger] self.entries()[i].tensor_id == k by {
            lemma_map_domain(ps, k);
            let i = choose|i: int| 0 <= i < ps.len() && ps[i].0 == k;
            assert(self.entries()[i].tensor_id == k);
        }
    }

    pub fn new() -> (r: Self)
        ensures
            r.wf(),
            r@.tensors == Map::<Seq<char>, EntryView>::empty(),
            r@.node_index == Map::<NodeId, Seq<Seq<char>>>::empty(),
    {
        let r = TensorDirectory { tensors: Vec::new(), node_tensors: Vec::new() };
        assert(tensor_pairs(r.tensors@) =~= Seq::empty());
        assert(node_pairs(r.node_tensors@) =~= Seq::empty());
        r
    }

    fn find_tensor(&self, id: &str) -> (r: Option<usize>)
        ensures
            match r {
                Some(i) => i < self.tensors@.len() && self.tensors@[i as int].tensor_id@ == id@,
                None => forall|i: int| 0 <= i < self.tensors@.len() ==> self.tensors@[i].tensor_id@ != id@,
            },
    {
        let mut i: usize = 0;
        while i < self.tensors.len()
            invariant
                i <= self.tensors@.len(),
                forall|j: int| 0 <= j < i ==> self.tensors@[j].tensor_id@ != id@,
            decreases self.tensors@.len() - i,
        {
            if str_eq(self.tensors[i].tensor_id.as_str(), id) {
                return Some(i);
            }
            i = i + 1;
        }
        None
    }

    fn find_node(&self, node: NodeId) -> (r: Option<usize>)
        ensures
            match r {
                Some(i) => i < self.node_tensors@.len() && self.node_tensors@[i as int].0 == node,
                None => forall|i: int| 0 <= i < self.node_tensors@.len() ==> self.node_tensors@[i].0 != node,
            },
    {
        let mut i: usize = 0;
        while i < self.node_tensors.len()
            invariant
                i <= self.node_tensors@.len(),
                forall|j: int| 0 <= j < i ==> self.node_tensors@[j].0 != node,
            decreases self.node_tensors@.len() - i,
        {
            if self.node_tensors[i].0 == node {
                return Some(i);
            }
            i = i + 1;
        }
        None
    }

    /// Appends `id` to the list of `node`, creating the list when needed.
    fn index_push(&mut self, node: NodeId, id: String)
        requires
            old(self).wf(),
        ensures
            final(self).wf(),
            final(self).tensors@ == old(self).tensors@,
            final(self)@.node_index == old(self)@.node_index.insert(node, ids_on(old(self)@.node_index, node).push(id@)),
    {
        let ghost ps = node_pairs(self.node_tensors@);
        match self.find_node(node) {
            Some(i) => {
                proof {
                    lemma_map_lookup(ps, i as int);
                }
                let (n, mut list) = self.node_tensors.remove(i);
                let ghost old_list = list@;
                list.push(id);
                assert(ids_view(list@) =~= ids_view(old_list).push(id@));
                self.node_tensors.insert(i, (n, list));
                proof {
                    assert(node_pairs(self.node_tensors@) =~= ps.update(i as int, (node, ps[i as int].1.push(id@))));
                    lemma_map_update(ps, i as int, ps[i as int].1.push(id@));
                    assert forall|j: int| 0 <= j < self.node_tensors@.len() implies #[trigger] self.node_tensors@[j].1@.len() > 0 by {
                        if j != i {
                            assert(self.node_tensors@[j] == old(self).node_tensors@[j]);
                        }
                    }
                }
            },
            None => {
                proof {
                    lemma_map_absent(ps, node);
                }
                let mut list: Vec<String> = Vec::new();
                list.push(id);
                assert(ids_view(list@) =~= seq![id@]);
                self.node_tensors.push((node, list));
                proof {
                    assert(node_pairs(self.node_tensors@) =~= ps.push((node, seq![id@])));
                    assert(ids_on(old(self)@.node_index, node).push(id@) =~= seq![id@]);
                    lemma_map_push(ps, node, seq![id@]);
                    lemma_unique_push(ps, node, seq![id@]);
                }
            },
        }
    }

    /// Registers a tensor with one placement, at time `now`. An entry with the
    /// same id is replaced; the id is appended to the placement node's list.
    pub fn register_tensor_at(
        &mut self,
        tensor_id: TensorId,
        shape: Vec<usize>,
        dtype: String,
        placement: PhysicalPlacement,
        mutable: bool,
        owner_session: Option<SessionId>,
        now: Timestamp,
    ) -> (r: Result<(), DirectoryError>)
        requires
            old(self).wf(),
        ensures
            final(self).wf(),
            r is Ok,
            final(self)@.tensors == old(self)@.tensors.insert(tensor_id@, EntryView {
                tensor_id: tensor_id@,
                shape: shape@,
                dtype: dtype@,
                placements: seq![placement@],
                version: 1,
                mutable,
                owner_session,
                created_at: now,
                last_accessed: now,
            }),
            final(self)@.node_index == old(self)@.node_index.insert(
                placement.node_id, ids_on(old(self)@.node_index, placement.node_id).push(tensor_id@)),
    {
        let node = placement.node_id;
        let key = tensor_id.clone();
        let mut placements: Vec<PhysicalPlacement> = Vec::new();
        placements.push(placement);
        let entry = TensorEntry {
            tensor_id,
            shape,
            dtype,
            placements,
            version: 1,
            mutable,
            owner_session,
            created_at: now,
            last_accessed: now,
        };
        assert(entry@.placements =~= seq![placement@]);
        let ghost ev = entry@;
        let ghost ps = tensor_pairs(self.tensors@);
        match self.find_tensor(key.as_str()) {
            Some(i) => {
                self.tensors.set(i, entry);
                proof {
                    assert(tensor_pairs(self.tensors@) =~= ps.update(i as int, (ps[i as int].0, ev)));
                    lemma_map_update(ps, i as int, ev);
                }
            },
            None => {
                self.tensors.push(entry);
                proof {
                    assert(tensor_pairs(self.tensors@) =~= ps.push((key@, ev)));
                    lemma_map_absent(ps, key@);
                    lemma_map_push(ps, key@, ev);
                    lemma_unique_push(ps, key@, ev);
                }
            },
        }
        self.index_push(node, key);
        Ok(())
    }

    /// Registers a tensor with one placement, stamped with the current time.
    pub fn register_tensor(
        &mut self,
        tensor_id: TensorId,
        shape: Vec<usize>,
        dtype: String,
        placement: PhysicalPlacement,
        mutable: bool,
        owner_session: Option<SessionId>,
    ) -> (r: Result<(), DirectoryError>)
        requires
            old(self).wf(),
        ensures
            final(self).wf(),
            r is Ok,
            exists|now: Timestamp| final(self)@.tensors == old(self)@.tensors.insert(tensor_id@, EntryView {
                tensor_id: tensor_id@,
                shape: shape@,
                dtype: dtype@,
                placements: seq![placement@],
                version: 1,
                mutable,
                owner_session,
                created_at: now,
                last_accessed: now,
            }),
            final(self)@.node_index == old(self)@.node_index.insert(
                placement.node_id, ids_on(old(self)@.node_index, placement.node_id).push(tensor_id@)),
    {
        let now = now_millis();
        self.register_tensor_at(tensor_id, shape, dtype, placement, mutable, owner_session, now)
    }

    /// The entry of a tensor, with its last access set to `now`.
    pub fn get_tensor_at(&mut self, tensor_id: &str, now: Timestamp) -> (r: Option<TensorEntry>)
        requires
            old(self).wf(),
        ensures
            final(self).wf(),
            final(self)@.node_index == old(self)@.node_index,
            match r {
                Some(e) => old(self)@.tensors.contains_key(tensor_id@)
                    && e@ == EntryView { last_accessed: now, ..old(self)@.tensors[tensor_id@] }
                    && final(self)@.tensors == old(self)@.tensors.insert(tensor_id@, e@),
                None => !old(self)@.tensors.contains_key(tensor_id@) && final(self)@.tensors == old(self)@.tensors,
            },
    {
        let ghost ps = tensor_pairs(self.tensors@);
        match self.find_tensor(tensor_id) {
            Some(i) => {
                proof {
                    lemma_map_lookup(ps, i as int);
                }
                let mut e = self.tensors.remove(i);
                e.last_accessed = now;
                let copy = e.clone();
                self.tensors.insert(i, e);
                proof {
                    assert(tensor_pairs(self.tensors@) =~= ps.update(i as int, (ps[i as int].0, copy@)));
                    lemma_map_update(ps, i as int, copy@);
                }
                Some(copy)
            },
            None => {
                proof {
                    lemma_map_absent(ps, tensor_id@);
                }
                None
            },
        }
    }

    /// The entry of a tensor, with its last access set to the current time.
    pub fn get_tensor(&mut self, tensor_id: &str) -> (r: Option<TensorEntry>)
        requires
            old(self).wf(),
        ensures
            final(self).wf(),
            final(self)@.node_index == old(self)@.node_index,
            match r {
                Some(e) => old(self)@.tensors.contains_key(tensor_id@)
                    && e@ == EntryView { last_accessed: e@.last_accessed, ..old(self)@.tensors[tensor_id@] }
                    && final(self)@.tensors == old(self)@.tensors.insert(tensor_id@, e@),
                None => !old(self)@.tensors.contains_key(tensor_id@) && final(self)@.tensors == old(self)@.tensors,
            },
    {
        let now = now_millis();
        self.get_tensor_at(tensor_id, now)
    }

    /// Adds a placement to an existing tensor, one version later, and lists
    /// the tensor on the placement's node.
    pub fn add_placement(&mut self, tensor_id: &str, placement: PhysicalPlacement) -> (r: Result<(), DirectoryError>)
        requires
            old(self).wf(),
            version_headroom(old(self)@.tensors, 1),
        ensures
            final(self).wf(),
            match r {
                Ok(()) => old(self)@.tensors.contains_key(tensor_id@)
                    && final(self)@.tensors == with_placement(old(self)@.tensors, tensor_id@, placement@)
                    && final(self)@.node_index == old(self)@.node_index.insert(
                        placement.node_id, ids_on(old(self)@.node_index, placement.node_id).push(tensor_id@)),
                Err(e) => !old(self)@.tensors.contains_key(tensor_id@)
                    && (e matches DirectoryError::TensorNotFound(t) && t@ == tensor_id@)
                    && final(self)@ == old(self)@,
            },
    {
        let ghost ps = tensor_pairs(self.tensors@);
        match self.find_tensor(tensor_id) {
            Some(i) => {
                proof {
                    lemma_map_lookup(ps, i as int);
                }
                let node = placement.node_id;
                let mut e = self.tensors.remove(i);
                let ghost before = e@;
                e.placements.push(placement);
                e.version = e.version + 1;
                assert(e@.placements =~= before.placements.push(placement@));
                let ghost ev = e@;
                self.tensors.insert(i, e);
                proof {
                    assert(tensor_pairs(self.tensors@) =~= ps.update(i as int, (ps[i as int].0, ev)));
                    lemma_map_update(ps, i as int, ev);
                }
                self.index_push(node, String::from_str(tensor_id));
                Ok(())
            },
            None => {
                proof {
                    lemma_map_absent(ps, tensor_id@);
                }
                Err(DirectoryError::TensorNotFound(String::from_str(tensor_id)))
            },
        }
    }

    /// Drops `id` from `node`'s list; an emptied list goes away.
    fn index_drop_id(&mut self, node: NodeId, id: &str)
        requires
            old(self).wf(),
        ensures
            final(self).wf(),
            final(self).tensors@ == old(self).tensors@,
            final(self)@.node_index == index_drop(old(self)@.node_index, node, id@),
    {
        let ghost ps = node_pairs(self.node_tensors@);
        match self.find_node(node) {
            Some(i) => {
                proof {
                    lemma_map_lookup(ps, i as int);
                }
                let (n, list) = self.node_tensors.remove(i);
                let kept = filter_ids(&list, id);
                if kept.len() == 0 {
                    proof {
                        assert(node_pairs(self.node_tensors@) =~= ps.remove(i as int));
                        lemma_map_remove(ps, i as int);
                        assert forall|j: int| 0 <= j < self.node_tensors@.len() implies #[trigger] self.node_tensors@[j].1@.len() > 0 by {
                            let j2 = if j < i { j } else { j + 1 };
                            assert(self.node_tensors@[j] == old(self).node_tensors@[j2]);
                        }
                    }
                } else {
                    let ghost kv = ids_view(kept@);
                    self.node_tensors.insert(i, (n, kept));
                    proof {
                        assert(node_pairs(self.node_tensors@) =~= ps.update(i as int, (node, kv)));
                        lemma_map_update(ps, i as int, kv);
                        assert forall|j: int| 0 <= j < self.node_tensors@.len() implies #[trigger] self.node_tensors@[j].1@.len() > 0 by {
                            if j != i {
                                assert(self.node_tensors@[j] == old(self).node_tensors@[j]);
                            }
                        }
                    }
                }
            },
            None => {
                proof {
                    lemma_map_absent(ps, node);
                }
            },
        }
    }

    /// Drops the placements on `node` from the entry at `i`, one version
    /// later; the entry goes away when none is left. Tells whether it went away.
    fn drop_node_at(&mut self, i: usize, node: NodeId) -> (removed: bool)
        requires
            old(self).wf(),
            i < old(self).tensors@.len(),
            old(self).tensors@[i as int].version < u64::MAX,
        ensures
            final(self).wf(),
            final(self).node_tensors@ == old(self).node_tensors@,
            final(self)@.tensors == drop_placement(old(self)@.tensors, old(self).tensors@[i as int].tensor_id@, node),
            removed == (keep_off_node(old(self).tensors@[i as int]@.placements, node).len() == 0),
    {
        let ghost ps = tensor_pairs(self.tensors@);
        proof {
            lemma_map_lookup(ps, i as int);
        }
        let mut e = self.tensors.remove(i);
        let kept = filter_off_node(&e.placements, node);
        if kept.len() == 0 {
            proof {
                assert(tensor_pairs(self.tensors@) =~= ps.remove(i as int));
                lemma_map_remove(ps, i as int);
            }
            true
        } else {
            e.placements = kept;
            e.version = e.version + 1;
            let ghost ev = e@;
            self.tensors.insert(i, e);
            proof {
                assert(tensor_pairs(self.tensors@) =~= ps.update(i as int, (ps[i as int].0, ev)));
                lemma_map_update(ps, i as int, ev);
            }
            false
        }
    }

    /// Removes `node`'s placements from a tensor, and the tensor from
    /// `node`'s list. A tensor left without placements is removed.
    pub fn remove_placement(&mut self, tensor_id: &str, node_id: NodeId) -> (r: Result<(), DirectoryError>)
        requires
            old(self).wf(),
            version_headroom(old(self)@.tensors, 1),
        ensures
            final(self).wf(),
            match r {
                Ok(()) => old(self)@.tensors.contains_key(tensor_id@)
                    && final(self)@.tensors == drop_placement(old(self)@.tensors, tensor_id@, node_id)
                    && final(self)@.node_index == index_drop(old(self)@.node_index, node_id, tensor_id@),
                Err(e) => !old(self)@.tensors.contains_key(tensor_id@)
                    && (e matches DirectoryError::TensorNotFound(t) && t@ == tensor_id@)
                    && final(self)@ == old(self)@,
            },
    {
        let ghost ps = tensor_pairs(self.tensors@);
        match self.find_tensor(tensor_id) {
            Some(i) => {
                proof {
                    lemma_map_lookup(ps, i as int);
                }
                self.drop_node_at(i, node_id);
                self.index_drop_id(node_id, tensor_id);
                Ok(())
            },
            None => {
                proof {
                    lemma_map_absent(ps, tensor_id@);
                }
                Err(DirectoryError::TensorNotFound(String::from_str(tensor_id)))
            },
        }
    }

    /// The entries listed for a node that are still in the directory, in list order.
    pub fn get_tensors_on_node(&self, node_id: NodeId) -> (r: Vec<TensorEntry>)
        requires
            self.wf(),
        ensures
            entries_view(r@) == listed_entries(self@.tensors, ids_on(self@.node_index, node_id)),
    {
        let ghost nps = node_pairs(self.node_tensors@);
        let ghost tps = tensor_pairs(self.tensors@);
        let mut r: Vec<TensorEntry> = Vec::new();
        match self.find_node(node_id) {
            None => {
                proof {
                    lemma_map_absent(nps, node_id);
                }
                assert(entries_view(r@) =~= Seq::<EntryView>::empty());
                r
            },
            Some(n) => {
                proof {
                    lemma_map_lookup(nps, n as int);
                }
                let list = &self.node_tensors[n].1;
                let ghost ids = ids_view(list@);
                let mut i: usize = 0;
                assert(ids.take(0) =~= Seq::<Seq<char>>::empty());
                assert(entries_view(r@) =~= Seq::<EntryView>::empty());
                while i < list.len()
                    invariant
                        self.wf(),
                        tps == tensor_pairs(self.tensors@),
                        i <= list@.len(),
                        ids == ids_view(list@),
                        entries_view(r@) == listed_entries(self@.tensors, ids.take(i as int)),
                    decreases list@.len() - i,
                {
                    assert(ids.take(i + 1).drop_last() =~= ids.take(i as int));
                    match self.find_tensor(list[i].as_str()) {
                        Some(j) => {
                            proof {
                                lemma_map_lookup(tps, j as int);
                            }
                            let ghost before = r@;
                            r.push(self.tensors[j].clone());
                            assert(entries_view(r@) =~= entries_view(before).push(self.tensors@[j as int]@));
                        },
                        None => {
                            proof {
                                lemma_map_absent(tps, ids[i as int]);
                            }
                        },
                    }
                    i = i + 1;
                }
                assert(ids.take(i as int) =~= ids);
                r
            },
        }
    }

    /// The entries owned by a session, in the order [`Self::entries`] lists them.
    pub fn get_tensors_by_session(&self, session_id: SessionId) -> (r: Vec<TensorEntry>)
        ensures
            entries_view(r@) == owned_by(self.entries(), session_id),
    {
        let ghost es = self.entries();
        let mut r: Vec<TensorEntry> = Vec::new();
        let mut i: usize = 0;
        assert(es.take(0) =~= Seq::<EntryView>::empty());
        assert(entries_view(r@) =~= Seq::<EntryView>::empty());
        while i < self.tensors.len()
            invariant
                i <= self.tensors@.len(),
                es == self.entries(),
                entries_view(r@) == owned_by(es.take(i as int), session_id),
            decreases self.tensors@.len() - i,
        {
            assert(es.take(i + 1).drop_last() =~= es.take(i as int));
            if self.tensors[i].owner_session == Some(session_id) {
                let ghost before = r@;
                r.push(self.tensors[i].clone());
                assert(entries_view(r@) =~= entries_view(before).push(es[i as int]));
            }
            i = i + 1;
        }
        assert(es.take(i as int) =~= es);
        r
    }

    /// The entries placed on more than one node or mutable, in the order
    /// [`Self::entries`] lists them. The session is not consulted.
    pub fn get_tensors_for_replication(&self, session_id: SessionId) -> (r: Vec<TensorEntry>)
        ensures
            entries_view(r@) == needing_replication(self.entries()),
    {
        let ghost es = self.entries();
        let mut r: Vec<TensorEntry> = Vec::new();
        let mut i: usize = 0;
        assert(es.take(0) =~= Seq::<EntryView>::empty());
        assert(entries_view(r@) =~= Seq::<EntryView>::empty());
        while i < self.tensors.len()
            invariant
                i <= self.tensors@.len(),
                es == self.entries(),
                entries_view(r@) == needing_replication(es.take(i as int)),
            decreases self.tensors@.len() - i,
        {
            assert(es.take(i + 1).drop_last() =~= es.take(i as int));
            assert(es[i as int].placements.len() == self.tensors@[i as int].placements@.len());
            if self.tensors[i].placements.len() > 1 || self.tensors[i].mutable {
                let ghost before = r@;
                r.push(self.tensors[i].clone());
                assert(entries_view(r@) =~= entries_view(before).push(es[i as int]));
            }
            i = i + 1;
        }
        assert(es.take(i as int) =~= es);
        r
    }

    /// Counts of tensors, placements, mutable tensors and listed nodes.
    pub fn get_stats(&self) -> (r: DirectoryStats)
        requires
            self.wf(),
            total_placements(self.entries()) <= usize::MAX,
        ensures
            r.total_tensors == self@.tensors.len(),
            r.node_count == self@.node_index.len(),
            r.total_placements == total_placements(self.entries()),
            r.mutable_count == count_mutable(self.entries()),
    {
        let ghost es = self.entries();
        proof {
            lemma_map_len(tensor_pairs(self.tensors@));
            lemma_map_len(node_pairs(self.node_tensors@));
        }
        let mut placements: usize = 0;
        let mut mutable_count: usize = 0;
        let mut i: usize = 0;
        while i < self.tensors.len()
            invariant
                i <= self.tensors@.len(),
                es == self.entries(),
                total_placements(es) <= usize::MAX,
                placements == total_placements(es.take(i as int)),
                mutable_count == count_mutable(es.take(i as int)),
                mutable_count <= i,
            decreases self.tensors@.len() - i,
        {
            assert(es.take(i + 1).drop_last() =~= es.take(i as int));
            proof {
                lemma_total_placements_prefix(es, i + 1);
            }
            placements = placements + self.tensors[i].placements.len();
            if self.tensors[i].mutable {
                mutable_count = mutable_count + 1;
            }
            i = i + 1;
        }
        assert(es.take(i as int) =~= es);
        DirectoryStats {
            total_tensors: self.tensors.len(),
            total_placements: placements,
            mutable_count,
            node_count: self.node_tensors.len(),
        }
    }

    /// Records a copy of a tensor sent from one node to another: a replica
    /// placement on the destination, on the device the first placement on the
    /// source uses, at offset 0, as long as the data.
    pub fn transfer_tensor(&mut self, tensor_id: &str, from_node: NodeId, to_node: NodeId, data: &[u8]) -> (r: Result<(), DirectoryError>)
        requires
            old(self).wf(),
            version_headroom(old(self)@.tensors, 1),
        ensures
            final(self).wf(),
            !old(self)@.tensors.contains_key(tensor_id@) ==> (r matches Err(DirectoryError::TensorNotFound(t)) && t@ == tensor_id@) && final(self)@ == old(self)@,
            old(self)@.tensors.contains_key(tensor_id@) ==> match first_on_node(old(self)@.tensors[tensor_id@].placements, from_node) {
                None => r == Err::<(), DirectoryError>(DirectoryError::NotOnSourceNode) && final(self)@ == old(self)@,
                Some(src) => {
                    let p = PlacementView { node_id: to_node, device: src.device, offset: 0, length: data@.len() as u64, role: PlacementRole::Replica };
                    &&& r is Ok
                    &&& final(self)@.tensors == old(self)@.tensors.insert(tensor_id@, EntryView {
                            placements: old(self)@.tensors[tensor_id@].placements.push(p),
                            version: (old(self)@.tensors[tensor_id@].version + 1) as u64,
                            ..old(self)@.tensors[tensor_id@]
                        })
                    &&& final(self)@.node_index == old(self)@.node_index.insert(to_node, ids_on(old(self)@.node_index, to_node).push(tensor_id@))
                },
            },
    {
        let ghost ps = tensor_pairs(self.tensors@);
        let i = match self.find_tensor(tensor_id) {
            Some(i) => i,
            None => {
                proof {
                    lemma_map_absent(ps, tensor_id@);
                }
                return Err(DirectoryError::TensorNotFound(String::from_str(tensor_id)));
            },
        };
        proof {
            lemma_map_lookup(ps, i as int);
        }
        let placements = &self.tensors[i].placements;
        let ghost pv = placements_view(placements@);
        let mut k: usize = 0;
        assert(pv.skip(0) =~= pv);
        while k < placements.len() && placements[k].node_id != from_node
            invariant
                k <= placements@.len(),
                pv == placements_view(placements@),
                first_on_node(pv, from_node) == first_on_node(pv.skip(k as int), from_node),
            decreases placements@.len() - k,
        {
            assert(pv.skip(k as int).drop_first() =~= pv.skip(k + 1));
            k = k + 1;
        }
        if k == placements.len() {
            assert(pv.skip(k as int) =~= Seq::<PlacementView>::empty());
            return Err(DirectoryError::NotOnSourceNode);
        }
        let src = k;
        assert(first_on_node(pv, from_node) == Some(pv[src as int]));
        let new_placement = PhysicalPlacement {
            node_id: to_node,
            device: placements[src].device.clone(),
            offset: 0,
            length: data.len() as u64,
            role: PlacementRole::Replica,
        };
        self.add_placement(tensor_id, new_placement)
    }

    /// Evicts a node: its list goes away, and each tensor listed on it, in list
    /// order, loses its placements there; the ids of tensors left without any
    /// placement are returned.
    pub fn evict_from_node(&mut self, node_id: NodeId, reason: &str) -> (r: Result<Vec<TensorId>, DirectoryError>)
        requires
            old(self).wf(),
            version_headroom(old(self)@.tensors, ids_on(old(self)@.node_index, node_id).len() as int),
        ensures
            final(self).wf(),
            r matches Ok(ev) && {
                let (t, evicted) = evict_fold(old(self)@.tensors, ids_on(old(self)@.node_index, node_id), node_id);
                &&& final(self)@.tensors == t
                &&& ids_view(ev@) == evicted
                &&& final(self)@.node_index == old(self)@.node_index.remove(node_id)
            },
    {
        let ghost nps = node_pairs(self.node_tensors@);
        let ghost t0 = self@.tensors;
        let ids: Vec<String> = match self.find_node(node_id) {
            Some(n) => {
                proof {
                    lemma_map_lookup(nps, n as int);
                }
                let (_, list) = self.node_tensors.remove(n);
                proof {
                    assert(node_pairs(self.node_tensors@) =~= nps.remove(n as int));
                    lemma_map_remove(nps, n as int);
                    assert forall|j: int| 0 <= j < self.node_tensors@.len() implies #[trigger] self.node_tensors@[j].1@.len() > 0 by {
                        let j2 = if j < n { j } else { j + 1 };
                        assert(self.node_tensors@[j] == old(self).node_tensors@[j2]);
                    }
                }
                list
            },
            None => {
                proof {
                    lemma_map_absent(nps, node_id);
                    assert(old(self)@.node_index.remove(node_id) =~= old(self)@.node_index);
                }
                Vec::new()
            },
        };
        let ghost iv = ids_view(ids@);
        assert(iv =~= ids_on(old(self)@.node_index, node_id));
        let ghost idx = self@.node_index;
        let mut evicted: Vec<String> = Vec::new();
        let mut i: usize = 0;
        assert(iv.take(0) =~= Seq::<Seq<char>>::empty());
        assert(ids_view(evicted@) =~= Seq::<Seq<char>>::empty());
        while i < ids.len()
            invariant
                self.wf(),
                i <= ids@.len(),
                iv == ids_view(ids@),
                self@.node_index == idx,
                version_headroom(self@.tensors, iv.len() - i),
                (self@.tensors, ids_view(evicted@)) == evict_fold(t0, iv.take(i as int), node_id),
            decreases ids@.len() - i,
        {
            assert(iv.take(i + 1).drop_last() =~= iv.take(i as int));
            let ghost ps = tensor_pairs(self.tensors@);
            let ghost t1 = self@.tensors;
            match self.find_tensor(ids[i].as_str()) {
                Some(j) => {
                    proof {
                        lemma_map_lookup(ps, j as int);
                    }
                    let gone = self.drop_node_at(j, node_id);
                    if gone {
                        let ghost before = evicted@;
                        evicted.push(ids[i].clone());
                        assert(ids_view(evicted@) =~= ids_view(before).push(iv[i as int]));
                    }
                    proof {
                        assert forall|k: Seq<char>| #[trigger] self@.tensors.contains_key(k) implies self@.tensors[k].version + (iv.len() - i - 1) <= u64::MAX by {
                            assert(t1.contains_key(k));
                        }
                    }
                },
                None => {
                    proof {
                        lemma_map_absent(ps, iv[i as int]);
                    }
                },
            }
            i = i + 1;
        }
        assert(iv.take(i as int) =~= iv);
        Ok(evicted)
    }
}

proof fn lemma_total_placements_prefix(s: Seq<EntryView>, k: int)
    requires
        0 <= k <= s.len(),
    ensures
        total_placements(s.take(k)) <= total_placements(s),
    decreases s.len() - k,
{
    if k < s.len() {
        lemma_total_placements_prefix(s, k + 1);
        assert(s.take(k + 1).drop_last() =~= s.take(k));
    } else {
        assert(s.take(k) =~= s);
    }
}

/// What `keep_off_node` keeps: no placement on `node`, and every placement
/// elsewhere.
pub proof fn lemma_keep_off_node(s: Seq<PlacementView>, node: NodeId)
    ensures
        !placed_on(keep_off_node(s, node), node),
        forall|p: PlacementView| p.node_id != node ==> (keep_off_node(s, node).contains(p) <==> s.contains(p)),
    decreases s.len(),
{
    if s.len() > 0 {
        lemma_keep_off_node(s.drop_last(), node);
        let r = keep_off_node(s.drop_last(), node);
        let k = keep_off_node(s, node);
        if placed_on(k, node) {
            let i = choose|i: int| 0 <= i < k.len() && #[trigger] k[i].node_id == node;
            if i < r.len() {
                assert(r[i].node_id == node);
            }
        }
        assert forall|p: PlacementView| p.node_id != node implies (k.contains(p) <==> s.contains(p)) by {
            if s.contains(p) {
                let j = choose|j: int| 0 <= j < s.len() && s[j] == p;
                if j < s.len() - 1 {
                    assert(s.drop_last()[j] == p);
                    assert(s.drop_last().contains(p));
                    assert(r.contains(p));
                    let j2 = choose|j2: int| 0 <= j2 < r.len() && r[j2] == p;
                    assert(k[j2] == p);
                } else {
                    assert(k[r.len() as int] == p);
                }
            }
            if k.contains(p) {
                let j = choose|j: int| 0 <= j < k.len() && k[j] == p;
                if j < r.len() {
                    assert(k[j] == r[j]);
                    assert(r.contains(p));
                    assert(s.drop_last().contains(p));
                    let j2 = choose|j2: int| 0 <= j2 < s.drop_last().len() && s.drop_last()[j2] == p;
                    assert(s[j2] == p);
                } else {
                    assert(s[s.len() - 1] == p);
                }
            }
        }
    }
}

/// A registered tensor is found under its id with the one placement it was
/// registered with, at version 1.
pub proof fn law_register_then_get(t: Map<Seq<char>, EntryView>, e: EntryView)
    ensures
        t.insert(e.tensor_id, e).contains_key(e.tensor_id),
        t.insert(e.tensor_id, e)[e.tensor_id] == e,
{
}

/// Removing a node's placement from a tensor right after adding one there
/// leaves the tensor on no placement of that node, with all its placements
/// elsewhere, two versions later; the tensor goes away when none is left.
pub proof fn law_add_then_remove_placement(t: Map<Seq<char>, EntryView>, id: Seq<char>, p: PlacementView)
    requires
        t.contains_key(id),
    ensures
        ({
            let t2 = drop_placement(with_placement(t, id, p), id, p.node_id);
            &&& t2.contains_key(id) <==> keep_off_node(t[id].placements, p.node_id).len() > 0
            &&& t2.contains_key(id) ==> t2[id].placements == keep_off_node(t[id].placements, p.node_id)
                && !placed_on(t2[id].placements, p.node_id)
                && t2[id].version == (((t[id].version + 1) as u64) + 1) as u64
            &&& forall|other: Seq<char>| other != id ==> (t2.contains_key(other) == t.contains_key(other)) && (t.contains_key(other) ==> t2[other] == t[other])
        }),
{
    let s = t[id].placements;
    assert(s.push(p).drop_last() =~= s);
    assert(keep_off_node(s.push(p), p.node_id) == keep_off_node(s, p.node_id));
    lemma_keep_off_node(s, p.node_id);
}

/// After a node is evicted, none of the tensors that were listed for it is
/// still placed on it; tensors not listed for it are untouched.
pub proof fn law_evict_leaves_nothing_on_node(t: Map<Seq<char>, EntryView>, ids: Seq<Seq<char>>, node: NodeId)
    ensures
        forall|id: Seq<char>| #[trigger] ids.contains(id) && evict_fold(t, ids, node).0.contains_key(id)
            ==> !placed_on(evict_fold(t, ids, node).0[id].placements, node),
        forall|id: Seq<char>| !ids.contains(id) ==> (#[trigger] evict_fold(t, ids, node).0.contains_key(id) == t.contains_key(id))
            && (t.contains_key(id) ==> evict_fold(t, ids, node).0[id] == t[id]),
    decreases ids.len(),
{
    if ids.len() > 0 {
        let rest = ids.drop_last();
        law_evict_leaves_nothing_on_node(t, rest, node);
        let t1 = evict_fold(t, rest, node).0;
        let last = ids.last();
        let t2 = evict_fold(t, ids, node).0;
        if t1.contains_key(last) {
            lemma_keep_off_node(t1[last].placements, node);
        }
        assert forall|id: Seq<char>| #[trigger] ids.contains(id) && t2.contains_key(id) implies !placed_on(t2[id].placements, node) by {
            if id != last {
                let j = choose|j: int| 0 <= j < ids.len() && ids[j] == id;
                assert(rest[j] == id);
                assert(rest.contains(id));
            }
        }
        assert forall|id: Seq<char>| !ids.contains(id) implies (#[trigger] t2.contains_key(id) == t.contains_key(id))
            && (t.contains_key(id) ==> t2[id] == t[id]) by {
            assert(ids[ids.len() - 1] == last);
            if rest.contains(id) {
                let j = choose|j: int| 0 <= j < rest.len() && rest[j] == id;
                assert(ids[j] == id);
            }
        }
    }
}

/// An entry is in the replication list exactly when it is in the directory
/// and is placed on more than one node or is mutable.
proof fn lemma_needing_replication_members(s: Seq<EntryView>, x: EntryView)
    ensures
        needing_replication(s).contains(x) <==> s.contains(x) && (x.placements.len() > 1 || x.mutable),
    decreases s.len(),
{
    if s.len() > 0 {
        let q = s.drop_last();
        lemma_needing_replication_members(q, x);
        assert(s =~= q.push(s.last()));
        if s.contains(x) && x != s.last() {
            let j = choose|j: int| 0 <= j < s.len() && s[j] == x;
            assert(q[j] == x);
        }
        if q.contains(x) {
            let j = choose|j: int| 0 <= j < q.len() && q[j] == x;
            assert(s[j] == x);
        }
        if s.last().placements.len() > 1 || s.last().mutable {
            let n = needing_replication(q);
            assert(n.push(s.last())[n.len() as int] == s.last());
            if n.push(s.last()).contains(x) && x != s.last() {
                let j = choose|j: int| 0 <= j < n.len() + 1 && n.push(s.last())[j] == x;
                assert(n[j] == x);
            }
            if n.contains(x) {
                let j = choose|j: int| 0 <= j < n.len() && n[j] == x;
                assert(n.push(s.last())[j] == x);
            }
        }
    }
}

/// The tensors handed out for replication are exactly the directory's
/// tensors that are placed on more than one node or are mutable: every
/// mutable tensor is listed, even with a single placement, and every listed
/// tensor is one of the directory's, as it stands.
pub proof fn law_replication_lists_shared_or_mutable(d: TensorDirectory, id: Seq<char>)
    requires
        d.wf(),
    ensures
        d@.tensors.contains_key(id) ==> (needing_replication(d.entries()).contains(d@.tensors[id])
            <==> (d@.tensors[id].placements.len() > 1 || d@.tensors[id].mutable)),
        forall|x: EntryView| #[trigger] needing_replication(d.entries()).contains(x) ==>
            d@.tensors.contains_key(x.tensor_id) && d@.tensors[x.tensor_id] == x && (x.placements.len() > 1 || x.mutable),
{
    d.lemma_entries();
    let es = d.entries();
    if d@.tensors.contains_key(id) {
        let i = choose|i: int| 0 <= i < es.len() && #[trigger] es[i].tensor_id == id;
        assert(es[i] == d@.tensors[id]);
        lemma_needing_replication_members(es, d@.tensors[id]);
    }
    assert forall|x: EntryView| #[trigger] needing_replication(es).contains(x) implies
        d@.tensors.contains_key(x.tensor_id) && d@.tensors[x.tensor_id] == x && (x.placements.len() > 1 || x.mutable) by {
        lemma_needing_replication_members(es, x);
        let j = choose|j: int| 0 <= j < es.len() && es[j] == x;
        assert(es[j].tensor_id == x.tensor_id);
    }
}

} // verus!

