//! What the runtime backends share: simulated durations, stage output
//! names, and the shapes of the work they hand back.

use vstd::prelude::*;
use crate::text::{decimal, u64_to_decimal};
use crate::types::{TensorHandle, ShardHandle};

verus! {

/// Bytes in a mebibyte.
pub const MIB: u64 = 1024 * 1024;

/// Bytes in a gibibyte.
pub const GIB: u64 = 1024 * 1024 * 1024;

/// The sum of the sizes of some tensors.
pub open spec fn input_bytes(s: Seq<TensorHandle>) -> int
    decreases s.len(),
{
    if s.len() == 0 {
        0
    } else {
        input_bytes(s.drop_last()) + s.last().size
    }
}

/// `v` raised to `lo`, then lowered to `hi`.
pub open spec fn clamp(v: int, lo: int, hi: int) -> int {
    let a = if v < lo { lo } else { v };
    if a > hi {
        hi
    } else {
        a
    }
}

/// The simulated milliseconds for `bytes`, one per `rate_mib` MiB (rounded
/// down, as a `u32`), clamped to `lo..=hi`.
pub open spec fn simulated_ms(bytes: u64, rate_mib: u64, lo: u32, hi: u32) -> u32 {
    clamp(per_mib(bytes, rate_mib) as int, lo as int, hi as int) as u32
}

/// One per `rate_mib` MiB of `bytes`, rounded down, as a `u32`.
pub open spec fn per_mib(bytes: u64, rate_mib: u64) -> u32 {
    (bytes as int / (rate_mib as int * 1048576)) as u32
}

/// The id of the output tensor of a stage: `stage_<id>_output_0`.
pub open spec fn output_id(stage_id: u32) -> Seq<char> {
    seq!['s', 't', 'a', 'g', 'e', '_'] + decimal(stage_id as nat) + seq!['_', 'o', 'u', 't', 'p', 'u', 't', '_', '0']
}

/// What running a stage takes: the simulated computation time, and the
/// tensors it produces.
#[derive(Debug, Clone)]
pub struct StageWork {
    pub compute_ms: u32,
    pub output_tensors: Vec<TensorHandle>,
}

/// What loading a shard takes: the simulated load time, and the handle.
#[derive(Debug, Clone, Copy)]
pub struct ShardWork {
    pub load_ms: u32,
    pub handle: ShardHandle,
}

/// What moving a tensor takes: the simulated transfer time, and what moved.
#[derive(Debug, Clone)]
pub struct TransferWork {
    pub transfer_ms: u32,
    pub tensor_id: String,
    pub bytes_transferred: u64,
}

/// Owned copies of some string slices.
pub fn strings(items: &[&str]) -> (r: Vec<String>)
    ensures
        r@.len() == items@.len(),
        forall|i: int| 0 <= i < items@.len() ==> #[trigger] r@[i]@ == items@[i]@,
{
    let mut r: Vec<String> = Vec::new();
    let mut i: usize = 0;
    while i < items.len()
        invariant
            i <= items@.len(),
            r@.len() == i,
            forall|k: int| 0 <= k < i ==> #[trigger] r@[k]@ == items@[k]@,
        decreases items@.len() - i,
    {
        r.push(String::from_str(items[i]));
        i = i + 1;
    }
    r
}

/// The total size of some tensors.
pub fn total_input_bytes(inputs: &Vec<TensorHandle>) -> (r: u64)
    requires
        input_bytes(inputs@) <= u64::MAX,
    ensures
        r == input_bytes(inputs@),
{
    let mut total: u64 = 0;
    let mut i: usize = 0;
    while i < inputs.len()
        invariant
            i <= inputs@.len(),
            input_bytes(inputs@) <= u64::MAX,
            total == input_bytes(inputs@.take(i as int)),
        decreases inputs@.len() - i,
    {
        assert(inputs@.take(i + 1).drop_last() =~= inputs@.take(i as int));
        proof {
            lemma_input_bytes_prefix(inputs@, i + 1);
        }
        total = total + inputs[i].size;
        i = i + 1;
    }
    assert(inputs@.take(i as int) =~= inputs@);
    total
}

proof fn lemma_input_bytes_prefix(s: Seq<TensorHandle>, k: int)
    requires
        0 <= k <= s.len(),
    ensures
        0 <= input_bytes(s.take(k)) <= input_bytes(s),
    decreases s.len() - k,
{
    if k < s.len() {
        lemma_input_bytes_prefix(s, k + 1);
        assert(s.take(k + 1).drop_last() =~= s.take(k));
    } else {
        assert(s.take(k) =~= s);
    }
    lemma_input_bytes_nonneg(s.take(k));
}

proof fn lemma_input_bytes_nonneg(s: Seq<TensorHandle>)
    ensures
        input_bytes(s) >= 0,
    decreases s.len(),
{
    if s.len() > 0 {
        lemma_input_bytes_nonneg(s.drop_last());
    }
}

/// The simulated time for `bytes`: one millisecond per `rate_mib` MiB,
/// clamped to `lo..=hi`.
pub fn simulated_delay(bytes: u64, rate_mib: u64, lo: u32, hi: u32) -> (r: u32)
    requires
        1 <= rate_mib <= 1024,
        lo <= hi,
    ensures
        r == simulated_ms(bytes, rate_mib, lo, hi),
{
    let v = (bytes / (rate_mib * MIB)) as u32;
    let a = if v < lo { lo } else { v };
    if a > hi {
        hi
    } else {
        a
    }
}

/// `stage_<id>_output_0`.
pub fn stage_output_id(stage_id: u32) -> (r: String)
    ensures
        r@ == output_id(stage_id),
{
    let mut s = String::from_str("stage_");
    let digits = u64_to_decimal(stage_id as u64);
    s.append(digits.as_str());
    s.append("_output_0");
    proof {
        reveal_strlit("stage_");
        reveal_strlit("_output_0");
    }
    s
}

/// `prefix` followed by the decimal digits of `n`.
pub fn with_number(prefix: &str, n: u64) -> (r: String)
    ensures
        r@ == prefix@ + decimal(n as nat),
{
    let mut s = String::from_str(prefix);
    let digits = u64_to_decimal(n);
    s.append(digits.as_str());
    s
}

/// Whether `s` starts with `prefix`.
pub fn starts_with(s: &str, prefix: &str) -> (r: bool)
    ensures
        r == (prefix@.len() <= s@.len() && s@.subrange(0, prefix@.len() as int) == prefix@),
{
    let n = s.unicode_len();
    let m = prefix.unicode_len();
    if m > n {
        return false;
    }
    let mut i: usize = 0;
    while i < m
        invariant
            m <= n,
            n == s@.len(),
            m == prefix@.len(),
            i <= m,
            forall|k: int| 0 <= k < i ==> s@[k] == prefix@[k],
        decreases m - i,
    {
        if s.get_char(i) != prefix.get_char(i) {
            assert(s@.subrange(0, m as int)[i as int] != prefix@[i as int]);
            return false;
        }
        i = i + 1;
    }
    assert(s@.subrange(0, m as int) =~= prefix@);
    true
}

} // verus!
