//! The model registry: metadata of the registered models, where their files
//! are cached, and on which nodes each model is cached.
//!
//! Model files are stored by content: the file whose SHA-256 digest has the
//! lowercase hex form `c` lives at `<cache dir>/<c[..2]>/<c>`. Paths are
//! joined as Unix paths are: a part that starts with `/` replaces the path,
//! otherwise a `/` separates the two unless the path is empty or already
//! ends with one.

use vstd::prelude::*;
use sha2::Digest;
use crate::kvmap::{keys_unique, seq_to_map, lemma_map_absent, lemma_map_lookup, lemma_map_domain, lemma_map_push, lemma_unique_push, lemma_map_update, lemma_map_remove, lemma_map_len};
use crate::text::{str_eq, hex_digit, hex_lower, hex_encode};
use crate::types::{ModelId, NodeId, Timestamp, now_millis};
use crate::gguf::{GgufParser, GgufError, GModel, parse_model, model_view, get_str, get_u64, pairs_to_map};

verus! {

/// Model metadata stored in the registry.
#[derive(Debug)]
pub struct ModelMetadata {
    pub model_id: ModelId,
    pub name: String,
    pub architecture: String,
    pub parameter_count: u64,
    pub context_length: u64,
    pub quantization: String,
    pub file_size_bytes: u64,
    pub checksum: String,
    pub file_path: String,
    pub cached_nodes: Vec<NodeId>,
    pub registered_at: Timestamp,
    pub last_accessed: Timestamp,
}

/// What a model's metadata says.
pub struct ModelView {
    pub model_id: Seq<char>,
    pub name: Seq<char>,
    pub architecture: Seq<char>,
    pub parameter_count: u64,
    pub context_length: u64,
    pub quantization: Seq<char>,
    pub file_size_bytes: u64,
    pub checksum: Seq<char>,
    pub file_path: Seq<char>,
    pub cached_nodes: Seq<NodeId>,
    pub registered_at: Timestamp,
    pub last_accessed: Timestamp,
}

impl View for ModelMetadata {
    type V = ModelView;

    open spec fn view(&self) -> ModelView {
        ModelView {
            model_id: self.model_id@,
            name: self.name@,
            architecture: self.architecture@,
            parameter_count: self.parameter_count,
            context_length: self.context_length,
            quantization: self.quantization@,
            file_size_bytes: self.file_size_bytes,
            checksum: self.checksum@,
            file_path: self.file_path@,
            cached_nodes: self.cached_nodes@,
            registered_at: self.registered_at,
            last_accessed: self.last_accessed,
        }
    }
}

impl Clone for ModelMetadata {
    fn clone(&self) -> (r: Self)
        ensures
            r@ == self@,
    {
        let nodes = self.cached_nodes.clone();
        assert(nodes@ =~= self.cached_nodes@);
        ModelMetadata {
            model_id: self.model_id.clone(),
            name: self.name.clone(),
            architecture: self.architecture.clone(),
            parameter_count: self.parameter_count,
            context_length: self.context_length,
            quantization: self.quantization.clone(),
            file_size_bytes: self.file_size_bytes,
            checksum: self.checksum.clone(),
            file_path: self.file_path.clone(),
            cached_nodes: nodes,
            registered_at: self.registered_at,
            last_accessed: self.last_accessed,
        }
    }
}

/// Registry errors.
#[derive(Debug, Clone, PartialEq, Eq)]
pub enum RegistryError {
    ModelNotFound(String),
    Parse(GgufError),
}

/// Registry statistics.
#[derive(Debug, Clone, Copy)]
pub struct RegistryStats {
    pub total_models: usize,
    pub total_size_bytes: u64,
    pub total_cache_nodes: usize,
}

/// What the registry holds: the models by id, and the cache directory.
pub struct RegistryView {
    pub models: Map<Seq<char>, ModelView>,
    pub cache_dir: Seq<char>,
}

/// The model registry.
pub struct ModelRegistry {
    models: Vec<ModelMetadata>,
    cache_dir: String,
}

// ----- checksums -----

/// The SHA-256 digest of some bytes.
pub uninterp spec fn sha256(data: Seq<u8>) -> Seq<u8>;

/// `sha2::Sha256::digest`: the SHA-256 digest of `data`, which is 32 bytes long.
#[verifier::external_body]
pub(crate) fn sha256_digest(data: &[u8]) -> (r: Vec<u8>)
    ensures
        r@ == sha256(data@),
        r@.len() == 32,
{
    sha2::Sha256::digest(data).to_vec()
}

pub(crate) proof fn lemma_hex_lower(bytes: Seq<u8>)
    ensures
        hex_lower(bytes).len() == 2 * bytes.len(),
        vstd::utf8::is_ascii_chars(hex_lower(bytes)),
    decreases bytes.len(),
{
    if bytes.len() > 0 {
        let b = bytes.last() as int;
        lemma_hex_lower(bytes.drop_last());
        let h = hex_digit(b / 16);
        let l = hex_digit(b % 16);
        assert('\0' <= h <= '\u{7f}');
        assert('\0' <= l <= '\u{7f}');
        let r = hex_lower(bytes);
        assert forall|i: int| 0 <= i < r.len() implies '\0' <= #[trigger] r[i] <= '\u{7f}' by {
            if i < r.len() - 2 {
                assert(r[i] == hex_lower(bytes.drop_last())[i]);
            }
        }
    }
}

/// The checksum of a model file: the lowercase hex form of its SHA-256 digest.
pub open spec fn checksum_of(data: Seq<u8>) -> Seq<char> {
    hex_lower(sha256(data))
}

// ----- paths -----

/// `base` joined with `part`, as a Unix path.
pub open spec fn path_join(base: Seq<char>, part: Seq<char>) -> Seq<char> {
    if part.len() > 0 && part[0] == '/' {
        part
    } else if base.len() == 0 {
        part
    } else if base.last() == '/' {
        base + part
    } else {
        base + seq!['/'] + part
    }
}

/// The first two bytes of `s` make whole characters.
pub open spec fn prefix_fits(s: Seq<char>) -> bool {
    &&& s.len() >= 1
    &&& ((s[0] as u32) < 0x80 && s.len() >= 2 && (s[1] as u32) < 0x80 || 0x80 <= (s[0] as u32) < 0x800)
}

/// The characters of the first two bytes of `s`.
pub open spec fn prefix2(s: Seq<char>) -> Seq<char> {
    if (s[0] as u32) < 0x80 {
        s.take(2)
    } else {
        s.take(1)
    }
}

/// Where the file with checksum `c` is cached.
pub open spec fn cache_path_for(dir: Seq<char>, c: Seq<char>) -> Seq<char> {
    path_join(path_join(dir, prefix2(c)), c)
}

fn path_join_exec(base: &str, part: &str) -> (r: String)
    ensures
        r@ == path_join(base@, part@),
{
    let pl = part.unicode_len();
    let bl = base.unicode_len();
    if pl > 0 && part.get_char(0) == '/' {
        String::from_str(part)
    } else if bl == 0 {
        String::from_str(part)
    } else if base.get_char(bl - 1) == '/' {
        let mut s = String::from_str(base);
        s.append(part);
        s
    } else {
        let mut s = String::from_str(base);
        s.append("/");
        proof {
            reveal_strlit("/");
        }
        s.append(part);
        assert(s@ =~= base@ + seq!['/'] + part@);
        s
    }
}

fn prefix2_exec(s: &str) -> (r: String)
    requires
        prefix_fits(s@),
    ensures
        r@ == prefix2(s@),
{
    let c0 = s.get_char(0);
    if (c0 as u32) < 0x80 {
        s.substring_char(0, 2).to_owned()
    } else {
        s.substring_char(0, 1).to_owned()
    }
}

// ----- registration -----

pub open spec fn architecture_of(g: GModel) -> Seq<char> {
    match get_str(pairs_to_map(g.metadata), "general.architecture"@) {
        Some(t) => t,
        None => "unknown"@,
    }
}

pub open spec fn parameter_count_of(g: GModel) -> u64 {
    match get_u64(pairs_to_map(g.metadata), "llama.block_count"@) {
        Some(n) => n,
        None => 0,
    }
}

pub open spec fn context_length_of(g: GModel) -> u64 {
    match get_u64(pairs_to_map(g.metadata), "llama.context_length"@) {
        Some(n) => n,
        None => 2048,
    }
}

/// The id of a model: its architecture, `-`, and the first sixteen
/// characters of its checksum.
pub open spec fn model_id_for(g: GModel, data: Seq<u8>) -> Seq<char> {
    architecture_of(g) + seq!['-'] + checksum_of(data).take(16)
}

/// The metadata registering the file `data`, parsed as `g`, records.
pub open spec fn registered(g: GModel, data: Seq<u8>, name: Seq<char>, dir: Seq<char>, m: ModelView) -> bool {
    &&& m.model_id == model_id_for(g, data)
    &&& m.name == name
    &&& m.architecture == architecture_of(g)
    &&& m.parameter_count == parameter_count_of(g)
    &&& m.context_length == context_length_of(g)
    &&& m.quantization == "q4_k_m"@
    &&& m.file_size_bytes == data.len()
    &&& m.checksum == checksum_of(data)
    &&& m.file_path == cache_path_for(dir, checksum_of(data))
    &&& m.cached_nodes == Seq::<NodeId>::empty()
}

pub open spec fn model_pairs(s: Seq<ModelMetadata>) -> Seq<(Seq<char>, ModelView)> {
    s.map_values(|m: ModelMetadata| (m@.model_id, m@))
}

pub open spec fn models_view(s: Seq<ModelMetadata>) -> Seq<ModelView> {
    s.map_values(|m: ModelMetadata| m@)
}

/// `s` without the node `n`, order kept.
pub open spec fn without_node(s: Seq<NodeId>, n: NodeId) -> Seq<NodeId>
    decreases s.len(),
{
    if s.len() == 0 {
        Seq::empty()
    } else {
        let r = without_node(s.drop_last(), n);
        if s.last() == n {
            r
        } else {
            r.push(s.last())
        }
    }
}

/// The models after the model `id` is recorded as cached on node `n`,
/// which is added to its nodes unless already there.
pub open spec fn with_cached(models: Map<Seq<char>, ModelView>, id: Seq<char>, n: NodeId) -> Map<Seq<char>, ModelView> {
    let m = models[id];
    models.insert(id, ModelView {
        cached_nodes: if m.cached_nodes.contains(n) { m.cached_nodes } else { m.cached_nodes.push(n) },
        ..m
    })
}

/// The models after node `n` is taken from the nodes caching model `id`.
pub open spec fn without_cached(models: Map<Seq<char>, ModelView>, id: Seq<char>, n: NodeId) -> Map<Seq<char>, ModelView> {
    let m = models[id];
    models.insert(id, ModelView { cached_nodes: without_node(m.cached_nodes, n), ..m })
}

/// Whether the model `id` is registered and cached on node `n`.
pub open spec fn is_cached(models: Map<Seq<char>, ModelView>, id: Seq<char>, n: NodeId) -> bool {
    models.contains_key(id) && models[id].cached_nodes.contains(n)
}

/// The models cached on node `n`, in order.
pub open spec fn cached_on(s: Seq<ModelView>, n: NodeId) -> Seq<ModelView>
    decreases s.len(),
{
    if s.len() == 0 {
        Seq::empty()
    } else {
        let r = cached_on(s.drop_last(), n);
        if s.last().cached_nodes.contains(n) {
            r.push(s.last())
        } else {
            r
        }
    }
}

pub open spec fn size_sum(s: Seq<ModelView>) -> int
    decreases s.len(),
{
    if s.len() == 0 {
        0
    } else {
        size_sum(s.drop_last()) + s.last().file_size_bytes
    }
}

pub open spec fn cache_entry_sum(s: Seq<ModelView>) -> int
    decreases s.len(),
{
    if s.len() == 0 {
        0
    } else {
        cache_entry_sum(s.drop_last()) + s.last().cached_nodes.len()
    }
}

impl View for ModelRegistry {
    type V = RegistryView;

    closed spec fn view(&self) -> RegistryView {
        RegistryView { models: seq_to_map(model_pairs(self.models@)), cache_dir: self.cache_dir@ }
    }
}

impl ModelRegistry {
    /// One entry per model id.
    pub closed spec fn wf(&self) -> bool {
        keys_unique(model_pairs(self.models@))
    }

    /// The models, each once, in the order the registry keeps them.
    pub closed spec fn entries(&self) -> Seq<ModelView> {
        models_view(self.models@)
    }

    /// The entries are exactly the map's values, each once.
    pub proof fn lemma_entries(&self)
        requires
            self.wf(),
        ensures
            self.entries().len() == self@.models.len(),
            forall|i: int| 0 <= i < self.entries().len() ==> self@.models.contains_key(#[trigger] self.entries()[i].model_id)
                && self@.models[self.entries()[i].model_id] == self.entries()[i],
            forall|k: Seq<char>| self@.models.contains_key(k) ==> exists|i: int| 0 <= i < self.entries().len() && #[trigger] self.entries()[i].model_id == k,
    {
        let ps = model_pairs(self.models@);
        lemma_map_len(ps);
        assert forall|i: int| 0 <= i < self.entries().len() implies self@.models.contains_key(#[trigger] self.entries()[i].model_id)
            && self@.models[self.entries()[i].model_id] == self.entries()[i] by {
            lemma_map_lookup(ps, i);
        }
        assert forall|k: Seq<char>| self@.models.contains_key(k) implies exists|i: int| 0 <= i < self.entries().len() && #[trigger] self.entries()[i].model_id == k by {
            lemma_map_domain(ps, k);
            let i = choose|i: int| 0 <= i < ps.len() && ps[i].0 == k;
            assert(self.entries()[i].model_id == k);
        }
    }

    /// An empty registry caching files under `cache_dir`.
    pub fn new(cache_dir: String) -> (r: Self)
        ensures
            r.wf(),
            r@.models == Map::<Seq<char>, ModelView>::empty(),
            r@.cache_dir == cache_dir@,
    {
        let r = ModelRegistry { models: Vec::new(), cache_dir };
        assert(model_pairs(r.models@) =~= Seq::empty());
        r
    }

    fn find(&self, id: &str) -> (r: Option<usize>)
        ensures
            match r {
                Some(i) => i < self.models@.len() && self.models@[i as int].model_id@ == id@,
                None => forall|i: int| 0 <= i < self.models@.len() ==> self.models@[i].model_id@ != id@,
            },
    {
        let mut i: usize = 0;
        while i < self.models.len()
            invariant
                i <= self.models@.len(),
                forall|j: int| 0 <= j < i ==> self.models@[j].model_id@ != id@,
            decreases self.models@.len() - i,
        {
            if str_eq(self.models[i].model_id.as_str(), id) {
                return Some(i);
            }
            i = i + 1;
        }
        None
    }

    /// The lowercase hex form of the SHA-256 digest of a model file's bytes.
    pub fn calculate_checksum(&self, data: &[u8]) -> (r: String)
        ensures
            r@ == checksum_of(data@),
            r@.len() == 64,
            vstd::utf8::is_ascii_chars(r@),
    {
        let digest = sha256_digest(data);
        proof {
            lemma_hex_lower(digest@);
        }
        hex_encode(digest.as_slice())
    }

    /// Where the file with this checksum is cached:
    /// `<cache dir>/<checksum[..2]>/<checksum>`.
    pub fn cache_path(&self, checksum: &str) -> (r: String)
        requires
            prefix_fits(checksum@),
        ensures
            r@ == cache_path_for(self@.cache_dir, checksum@),
    {
        let prefix = prefix2_exec(checksum);
        let dir = path_join_exec(self.cache_dir.as_str(), prefix.as_str());
        path_join_exec(dir.as_str(), checksum)
    }

    /// Where the file of a registered model is cached: the path it was
    /// registered with; nothing for an unknown model.
    pub fn get_cached_path(&self, model_id: &str) -> (r: Option<String>)
        requires
            self.wf(),
        ensures
            !self@.models.contains_key(model_id@) ==> r is None,
            self@.models.contains_key(model_id@) ==> (r matches Some(p) && p@ == self@.models[model_id@].file_path),
    {
        let ghost ps = model_pairs(self.models@);
        match self.find(model_id) {
            Some(i) => {
                proof {
                    lemma_map_lookup(ps, i as int);
                }
                let p = self.models[i].file_path.clone();
                Some(p)
            },
            None => {
                proof {
                    lemma_map_absent(ps, model_id@);
                }
                None
            },
        }
    }

    /// Registers a model from the bytes of its GGUF file, now; see
    /// `register_model_at`.
    pub fn register_model(&mut self, data: &[u8], name: String) -> (r: Result<ModelMetadata, RegistryError>)
        requires
            old(self).wf(),
        ensures
            final(self).wf(),
            final(self)@.cache_dir == old(self)@.cache_dir,
            match parse_model(data@) {
                Err(e) => r == Err::<ModelMetadata, RegistryError>(RegistryError::Parse(e)) && final(self)@ == old(self)@,
                Ok(g) => r matches Ok(m) && registered(g, data@, name@, old(self)@.cache_dir, m@)
                    && final(self)@.models == old(self)@.models.insert(m@.model_id, m@),
            },
    {
        let registered_at = now_millis();
        let last_accessed = now_millis();
        self.register_model_at(data, name, registered_at, last_accessed)
    }

    /// Registers a model from the bytes of its GGUF file, which is cached
    /// under its checksum, registered at `registered_at` and last accessed
    /// at `last_accessed`. A model with the same id is replaced.
    pub fn register_model_at(&mut self, data: &[u8], name: String, registered_at: Timestamp, last_accessed: Timestamp) -> (r: Result<ModelMetadata, RegistryError>)
        requires
            old(self).wf(),
        ensures
            final(self).wf(),
            final(self)@.cache_dir == old(self)@.cache_dir,
            match parse_model(data@) {
                Err(e) => r == Err::<ModelMetadata, RegistryError>(RegistryError::Parse(e)) && final(self)@ == old(self)@,
                Ok(g) => r matches Ok(m) && registered(g, data@, name@, old(self)@.cache_dir, m@)
                    && m@.registered_at == registered_at && m@.last_accessed == last_accessed
                    && final(self)@.models == old(self)@.models.insert(m@.model_id, m@),
            },
    {
        let model = match GgufParser::parse_bytes(data) {
            Ok(m) => m,
            Err(e) => return Err(RegistryError::Parse(e)),
        };
        let ghost g = model_view(model);
        assert(model.metadata.view_map() == pairs_to_map(g.metadata));
        let architecture = match GgufParser::get_architecture(&model) {
            Some(a) => a,
            None => {
                proof {
                    reveal_strlit("unknown");
                }
                String::from_str("unknown")
            },
        };
        let parameter_count = match GgufParser::get_parameter_count(&model) {
            Some(n) => n,
            None => 0,
        };
        let context_length = match GgufParser::get_context_length(&model) {
            Some(n) => n,
            None => 2048,
        };
        let checksum = self.calculate_checksum(data);
        let cs = checksum.as_str();
        assert('\0' <= cs@[0] <= '\u{7f}');
        assert('\0' <= cs@[1] <= '\u{7f}');
        assert(prefix_fits(cs@));
        let mut model_id = architecture.clone();
        model_id.append("-");
        model_id.append(cs.substring_ascii(0, 16));
        proof {
            reveal_strlit("-");
        }
        assert(model_id@ =~= model_id_for(g, data@));
        let file_path = self.cache_path(checksum.as_str());
        proof {
            reveal_strlit("q4_k_m");
        }
        let metadata = ModelMetadata {
            model_id,
            name,
            architecture,
            parameter_count,
            context_length,
            quantization: String::from_str("q4_k_m"),
            file_size_bytes: data.len() as u64,
            checksum,
            file_path,
            cached_nodes: Vec::new(),
            registered_at,
            last_accessed,
        };
        assert(metadata@.cached_nodes =~= Seq::<NodeId>::empty());
        let stored = metadata.clone();
        self.insert(stored);
        Ok(metadata)
    }

    /// Stores `m`, replacing a model with the same id.
    fn insert(&mut self, m: ModelMetadata)
        requires
            old(self).wf(),
        ensures
            final(self).wf(),
            final(self)@.cache_dir == old(self)@.cache_dir,
            final(self)@.models == old(self)@.models.insert(m@.model_id, m@),
    {
        let ghost ps = model_pairs(self.models@);
        match self.find(m.model_id.as_str()) {
            Some(i) => {
                proof {
                    lemma_map_update(ps, i as int, m@);
                }
                self.models.set(i, m);
                assert(model_pairs(self.models@) =~= ps.update(i as int, (ps[i as int].0, m@)));
            },
            None => {
                proof {
                    lemma_unique_push(ps, m@.model_id, m@);
                    lemma_map_push(ps, m@.model_id, m@);
                }
                self.models.push(m);
                assert(model_pairs(self.models@) =~= ps.push((m@.model_id, m@)));
            },
        }
    }

    /// The metadata of a model, its last access time set to now; see `get_model_at`.
    pub fn get_model(&mut self, model_id: &str) -> (r: Option<ModelMetadata>)
        requires
            old(self).wf(),
        ensures
            final(self).wf(),
            final(self)@.cache_dir == old(self)@.cache_dir,
            !old(self)@.models.contains_key(model_id@) ==> r is None && final(self)@ == old(self)@,
            old(self)@.models.contains_key(model_id@) ==> (r matches Some(m)
                && m@ == (ModelView { last_accessed: m@.last_accessed, ..old(self)@.models[model_id@] })
                && final(self)@.models == old(self)@.models.insert(model_id@, m@)),
    {
        let now = now_millis();
        self.get_model_at(model_id, now)
    }

    /// The metadata of a model, its last access time set to `now`.
    pub fn get_model_at(&mut self, model_id: &str, now: Timestamp) -> (r: Option<ModelMetadata>)
        requires
            old(self).wf(),
        ensures
            final(self).wf(),
            final(self)@.cache_dir == old(self)@.cache_dir,
            !old(self)@.models.contains_key(model_id@) ==> r is None && final(self)@ == old(self)@,
            old(self)@.models.contains_key(model_id@) ==> (r matches Some(m)
                && m@ == (ModelView { last_accessed: now, ..old(self)@.models[model_id@] })
                && final(self)@.models == old(self)@.models.insert(model_id@, m@)),
    {
        let ghost ps = model_pairs(self.models@);
        match self.find(model_id) {
            Some(i) => {
                proof {
                    lemma_map_lookup(ps, i as int);
                }
                let mut m = self.models[i].clone();
                m.last_accessed = now;
                let out = m.clone();
                proof {
                    lemma_map_update(ps, i as int, m@);
                }
                self.models.set(i, m);
                assert(model_pairs(self.models@) =~= ps.update(i as int, (ps[i as int].0, out@)));
                Some(out)
            },
            None => {
                proof {
                    lemma_map_absent(ps, model_id@);
                }
                None
            },
        }
    }

    /// All registered models, in the order the registry keeps them.
    pub fn list_models(&self) -> (r: Vec<ModelMetadata>)
        ensures
            models_view(r@) == self.entries(),
    {
        let mut r: Vec<ModelMetadata> = Vec::new();
        let mut i: usize = 0;
        while i < self.models.len()
            invariant
                i <= self.models@.len(),
                models_view(r@) == models_view(self.models@.take(i as int)),
            decreases self.models@.len() - i,
        {
            let ghost before = r@;
            let c = self.models[i].clone();
            assert(c@ == self.models@[i as int]@);
            r.push(c);
            assert(models_view(r@) =~= models_view(before).push(c@));
            assert(self.models@.take(i + 1) =~= self.models@.take(i as int).push(self.models@[i as int]));
            assert(models_view(self.models@.take(i + 1)) =~= models_view(self.models@.take(i as int)).push(c@));
            i = i + 1;
        }
        assert(self.models@.take(i as int) =~= self.models@);
        r
    }

    /// Records that a model is cached on a node; a node already listed is
    /// not listed twice.
    pub fn mark_cached(&mut self, model_id: &str, node_id: NodeId) -> (r: Result<(), RegistryError>)
        requires
            old(self).wf(),
        ensures
            final(self).wf(),
            final(self)@.cache_dir == old(self)@.cache_dir,
            !old(self)@.models.contains_key(model_id@) ==> (r matches Err(RegistryError::ModelNotFound(id)) && id@ == model_id@) && final(self)@ == old(self)@,
            old(self)@.models.contains_key(model_id@) ==> r is Ok && {
                final(self)@.models == with_cached(old(self)@.models, model_id@, node_id)
            },
    {
        let ghost ps = model_pairs(self.models@);
        match self.find(model_id) {
            Some(i) => {
                proof {
                    lemma_map_lookup(ps, i as int);
                }
                let mut m = self.models[i].clone();
                let mut present = false;
                let mut k: usize = 0;
                while k < m.cached_nodes.len()
                    invariant
                        k <= m.cached_nodes@.len(),
                        present == (exists|j: int| 0 <= j < k && m.cached_nodes@[j] == node_id),
                    decreases m.cached_nodes@.len() - k,
                {
                    if m.cached_nodes[k] == node_id {
                        present = true;
                    }
                    k = k + 1;
                }
                let ghost before = m@;
                if !present {
                    m.cached_nodes.push(node_id);
                } else {
                    assert(before.cached_nodes.contains(node_id));
                }
                proof {
                    lemma_map_update(ps, i as int, m@);
                }
                let ghost mv = m@;
                self.models.set(i, m);
                assert(model_pairs(self.models@) =~= ps.update(i as int, (ps[i as int].0, mv)));
                Ok(())
            },
            None => {
                proof {
                    lemma_map_absent(ps, model_id@);
                }
                Err(RegistryError::ModelNotFound(String::from_str(model_id)))
            },
        }
    }

    /// Removes a node from the nodes a model is cached on.
    pub fn unmark_cached(&mut self, model_id: &str, node_id: NodeId) -> (r: Result<(), RegistryError>)
        requires
            old(self).wf(),
        ensures
            final(self).wf(),
            final(self)@.cache_dir == old(self)@.cache_dir,
            !old(self)@.models.contains_key(model_id@) ==> (r matches Err(RegistryError::ModelNotFound(id)) && id@ == model_id@) && final(self)@ == old(self)@,
            old(self)@.models.contains_key(model_id@) ==> r is Ok && {
                final(self)@.models == without_cached(old(self)@.models, model_id@, node_id)
            },
    {
        let ghost ps = model_pairs(self.models@);
        match self.find(model_id) {
            Some(i) => {
                proof {
                    lemma_map_lookup(ps, i as int);
                }
                let mut m = self.models[i].clone();
                let mut kept: Vec<NodeId> = Vec::new();
                let mut k: usize = 0;
                while k < m.cached_nodes.len()
                    invariant
                        k <= m.cached_nodes@.len(),
                        kept@ == without_node(m.cached_nodes@.take(k as int), node_id),
                    decreases m.cached_nodes@.len() - k,
                {
                    assert(m.cached_nodes@.take(k + 1).drop_last() =~= m.cached_nodes@.take(k as int));
                    if m.cached_nodes[k] != node_id {
                        kept.push(m.cached_nodes[k]);
                    }
                    k = k + 1;
                }
                assert(m.cached_nodes@.take(k as int) =~= m.cached_nodes@);
                m.cached_nodes = kept;
                proof {
                    lemma_map_update(ps, i as int, m@);
                }
                let ghost mv = m@;
                self.models.set(i, m);
                assert(model_pairs(self.models@) =~= ps.update(i as int, (ps[i as int].0, mv)));
                Ok(())
            },
            None => {
                proof {
                    lemma_map_absent(ps, model_id@);
                }
                Err(RegistryError::ModelNotFound(String::from_str(model_id)))
            },
        }
    }

    /// Whether a model is registered and cached on a node.
    pub fn is_cached_on_node(&self, model_id: &str, node_id: NodeId) -> (r: bool)
        requires
            self.wf(),
        ensures
            r == is_cached(self@.models, model_id@, node_id),
    {
        let ghost ps = model_pairs(self.models@);
        match self.find(model_id) {
            Some(i) => {
                proof {
                    lemma_map_lookup(ps, i as int);
                }
                let nodes = &self.models[i].cached_nodes;
                assert(self@.models[model_id@].cached_nodes == nodes@);
                let mut k: usize = 0;
                while k < nodes.len()
                    invariant
                        k <= nodes@.len(),
                        self@.models.contains_key(model_id@),
                        self@.models[model_id@].cached_nodes == nodes@,
                        forall|j: int| 0 <= j < k ==> nodes@[j] != node_id,
                    decreases nodes@.len() - k,
                {
                    if nodes[k] == node_id {
                        assert(nodes@[k as int] == node_id);
                        assert(nodes@.contains(node_id));
                        return true;
                    }
                    k = k + 1;
                }
                false
            },
            None => {
                proof {
                    lemma_map_absent(ps, model_id@);
                }
                false
            },
        }
    }

    /// The models cached on a node, in the order the registry keeps them.
    pub fn get_models_on_node(&self, node_id: NodeId) -> (r: Vec<ModelMetadata>)
        ensures
            models_view(r@) == cached_on(self.entries(), node_id),
    {
        let ghost es = models_view(self.models@);
        let mut r: Vec<ModelMetadata> = Vec::new();
        let mut i: usize = 0;
        while i < self.models.len()
            invariant
                i <= self.models@.len(),
                es == models_view(self.models@),
                models_view(r@) == cached_on(es.take(i as int), node_id),
            decreases self.models@.len() - i,
        {
            assert(es.take(i + 1).drop_last() =~= es.take(i as int));
            let nodes = &self.models[i].cached_nodes;
            let mut found = false;
            let mut k: usize = 0;
            while k < nodes.len()
                invariant
                    k <= nodes@.len(),
                    found == (exists|j: int| 0 <= j < k && nodes@[j] == node_id),
                decreases nodes@.len() - k,
            {
                if nodes[k] == node_id {
                    found = true;
                }
                k = k + 1;
            }
            assert(found == nodes@.contains(node_id));
            if found {
                let ghost before = r@;
                r.push(self.models[i].clone());
                assert(models_view(r@) =~= models_view(before).push(es[i as int]));
            }
            i = i + 1;
        }
        assert(es.take(i as int) =~= es);
        r
    }

    /// Removes a model; returns the path of its cached file, which the
    /// caller deletes.
    pub fn unregister_model(&mut self, model_id: &str) -> (r: Result<String, RegistryError>)
        requires
            old(self).wf(),
        ensures
            final(self).wf(),
            final(self)@.cache_dir == old(self)@.cache_dir,
            !old(self)@.models.contains_key(model_id@) ==> (r matches Err(RegistryError::ModelNotFound(id)) && id@ == model_id@) && final(self)@ == old(self)@,
            old(self)@.models.contains_key(model_id@) ==> (r matches Ok(p) && p@ == old(self)@.models[model_id@].file_path)
                && final(self)@.models == old(self)@.models.remove(model_id@),
    {
        let ghost ps = model_pairs(self.models@);
        match self.find(model_id) {
            Some(i) => {
                proof {
                    lemma_map_lookup(ps, i as int);
                    lemma_map_remove(ps, i as int);
                }
                let m = self.models.remove(i);
                assert(model_pairs(self.models@) =~= ps.remove(i as int));
                Ok(m.file_path)
            },
            None => {
                proof {
                    lemma_map_absent(ps, model_id@);
                }
                Err(RegistryError::ModelNotFound(String::from_str(model_id)))
            },
        }
    }

    /// Number of models, their total file size, and the number of
    /// (model, node) cache entries.
    pub fn get_stats(&self) -> (r: RegistryStats)
        requires
            size_sum(self.entries()) <= u64::MAX,
            cache_entry_sum(self.entries()) <= usize::MAX,
        ensures
            r.total_models == self.entries().len(),
            r.total_size_bytes == size_sum(self.entries()),
            r.total_cache_nodes == cache_entry_sum(self.entries()),
    {
        let ghost es = models_view(self.models@);
        let mut size: u64 = 0;
        let mut entries: usize = 0;
        let mut i: usize = 0;
        while i < self.models.len()
            invariant
                i <= self.models@.len(),
                es == models_view(self.models@),
                size_sum(es) <= u64::MAX,
                cache_entry_sum(es) <= usize::MAX,
                size == size_sum(es.take(i as int)),
                entries == cache_entry_sum(es.take(i as int)),
            decreases self.models@.len() - i,
        {
            assert(es.take(i + 1).drop_last() =~= es.take(i as int));
            proof {
                lemma_sums_prefix(es, i + 1);
            }
            size = size + self.models[i].file_size_bytes;
            entries = entries + self.models[i].cached_nodes.len();
            i = i + 1;
        }
        assert(es.take(i as int) =~= es);
        RegistryStats { total_models: self.models.len(), total_size_bytes: size, total_cache_nodes: entries }
    }
}

proof fn lemma_sums_prefix(s: Seq<ModelView>, k: int)
    requires
        0 <= k <= s.len(),
    ensures
        0 <= size_sum(s.take(k)) <= size_sum(s),
        0 <= cache_entry_sum(s.take(k)) <= cache_entry_sum(s),
    decreases s.len() - k,
{
    if k < s.len() {
        lemma_sums_prefix(s, k + 1);
        assert(s.take(k + 1).drop_last() =~= s.take(k));
    } else {
        assert(s.take(k) =~= s);
    }
    lemma_sums_nonneg(s.take(k));
}

proof fn lemma_sums_nonneg(s: Seq<ModelView>)
    ensures
        size_sum(s) >= 0,
        cache_entry_sum(s) >= 0,
    decreases s.len(),
{
    if s.len() > 0 {
        lemma_sums_nonneg(s.drop_last());
    }
}

/// `n` is not among the nodes after it is taken out.
pub proof fn lemma_without_node(s: Seq<NodeId>, n: NodeId)
    ensures
        !without_node(s, n).contains(n),
        forall|k: NodeId| k != n ==> (without_node(s, n).contains(k) <==> s.contains(k)),
    decreases s.len(),
{
    if s.len() > 0 {
        lemma_without_node(s.drop_last(), n);
        let r = without_node(s.drop_last(), n);
        assert forall|k: NodeId| k != n implies (without_node(s, n).contains(k) <==> s.contains(k)) by {
            if s.contains(k) {
                let j = choose|j: int| 0 <= j < s.len() && s[j] == k;
                if j < s.len() - 1 {
                    assert(s.drop_last()[j] == k);
                    assert(s.drop_last().contains(k));
                    assert(r.contains(k));
                    let j3 = choose|j3: int| 0 <= j3 < r.len() && r[j3] == k;
                    assert(without_node(s, n)[j3] == k);
                } else {
                    assert(without_node(s, n) == r.push(s.last()));
                    assert(without_node(s, n)[r.len() as int] == k);
                }
            }
            if without_node(s, n).contains(k) {
                let w = without_node(s, n);
                let j = choose|j: int| 0 <= j < w.len() && w[j] == k;
                if j < r.len() {
                    assert(w[j] == r[j]);
                    assert(r.contains(k));
                    assert(s.drop_last().contains(k));
                    let j2 = choose|j2: int| 0 <= j2 < s.drop_last().len() && s.drop_last()[j2] == k;
                    assert(s[j2] == k);
                } else {
                    assert(s[s.len() - 1] == k);
                }
            }
        }
        if without_node(s, n).contains(n) {
            let j = choose|j: int| 0 <= j < without_node(s, n).len() && without_node(s, n)[j] == n;
            if s.last() == n {
                assert(r[j] == n);
            } else {
                if j < r.len() {
                    assert(r[j] == n);
                }
            }
        }
    }
}

/// Once a model is marked as cached on a node, the registry says it is
/// cached there; the other models and nodes are as they were.
pub proof fn law_mark_then_cached(models: Map<Seq<char>, ModelView>, id: Seq<char>, n: NodeId, other: Seq<char>, k: NodeId)
    requires
        models.contains_key(id),
    ensures
        is_cached(with_cached(models, id, n), id, n),
        (other != id || k != n) ==> (is_cached(with_cached(models, id, n), other, k) == is_cached(models, other, k)),
{
    let m = models[id];
    if !m.cached_nodes.contains(n) {
        assert(m.cached_nodes.push(n)[m.cached_nodes.len() as int] == n);
        if other == id && k != n {
            if m.cached_nodes.push(n).contains(k) {
                let j = choose|j: int| 0 <= j < m.cached_nodes.push(n).len() && m.cached_nodes.push(n)[j] == k;
                assert(m.cached_nodes[j] == k);
            }
            if m.cached_nodes.contains(k) {
                let j = choose|j: int| 0 <= j < m.cached_nodes.len() && m.cached_nodes[j] == k;
                assert(m.cached_nodes.push(n)[j] == k);
            }
        }
    }
}

/// Marking a model as cached on a node twice is marking it once.
pub proof fn law_mark_idempotent(models: Map<Seq<char>, ModelView>, id: Seq<char>, n: NodeId)
    requires
        models.contains_key(id),
    ensures
        with_cached(with_cached(models, id, n), id, n) == with_cached(models, id, n),
{
    law_mark_then_cached(models, id, n, id, n);
    assert(with_cached(with_cached(models, id, n), id, n) =~= with_cached(models, id, n));
}

/// Once a node is taken from a model's cache, the registry says it is not
/// cached there; the model's other nodes stay.
pub proof fn law_unmark_then_not_cached(models: Map<Seq<char>, ModelView>, id: Seq<char>, n: NodeId, k: NodeId)
    requires
        models.contains_key(id),
    ensures
        !is_cached(without_cached(models, id, n), id, n),
        k != n ==> (is_cached(without_cached(models, id, n), id, k) == is_cached(models, id, k)),
{
    lemma_without_node(models[id].cached_nodes, n);
}

/// A registered model can be looked up under its id, and is gone once
/// unregistered.
pub proof fn law_register_then_get(models: Map<Seq<char>, ModelView>, m: ModelView)
    ensures
        models.insert(m.model_id, m).contains_key(m.model_id),
        models.insert(m.model_id, m)[m.model_id] == m,
        !models.insert(m.model_id, m).remove(m.model_id).contains_key(m.model_id),
{
}

} // verus!

