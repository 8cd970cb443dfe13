//! Network topology: which links to measure, how a measured link is
//! classified, and the benchmark settings.

use vstd::prelude::*;
use crate::types::{NodeId, LinkMeasurement, NodeTopology, new_uuid};

verus! {

/// Quality classification for network links.
#[derive(Debug, Clone, Copy, PartialEq, Eq, Structural)]
pub enum LinkQuality {
    /// 10+ Gbps, under 100 us latency.
    Excellent,
    /// 2.5+ Gbps, under 500 us latency.
    Good,
    /// 1+ Gbps, under 2 ms latency.
    Acceptable,
    /// Below the acceptable thresholds.
    Poor,
}

/// Benchmark configuration.
#[derive(Debug, Clone, Copy)]
pub struct BenchmarkConfig {
    pub latency_samples: u32,
    pub bandwidth_duration_secs: u32,
    pub bandwidth_size_bytes: u64,
}

impl Default for BenchmarkConfig {
    /// Ten latency samples, five seconds of bandwidth test, 100 MiB of data.
    fn default() -> (r: Self)
        ensures
            r.latency_samples == 10,
            r.bandwidth_duration_secs == 5,
            r.bandwidth_size_bytes == 100 * 1024 * 1024,
    {
        BenchmarkConfig { latency_samples: 10, bandwidth_duration_secs: 5, bandwidth_size_bytes: 100 * 1024 * 1024 }
    }
}

pub open spec fn link_quality(bandwidth_mbps: u32, latency_us: u32) -> LinkQuality {
    if bandwidth_mbps >= 10000 && latency_us < 100 {
        LinkQuality::Excellent
    } else if bandwidth_mbps >= 2500 && latency_us < 500 {
        LinkQuality::Good
    } else if bandwidth_mbps >= 1000 && latency_us < 2000 {
        LinkQuality::Acceptable
    } else {
        LinkQuality::Poor
    }
}

/// The ordered pairs `(ids[i], ids[j])` with `i < j`, by `i` then `j`.
pub open spec fn pairs_from(ids: Seq<NodeId>, i: int) -> Seq<(NodeId, NodeId)>
    decreases ids.len() - i,
{
    if i >= ids.len() {
        Seq::empty()
    } else {
        ids.subrange(i + 1, ids.len() as int).map_values(|b: NodeId| (ids[i], b)) + pairs_from(ids, i + 1)
    }
}

/// Bandwidth a link is assumed to have before it is measured, in Mbps.
pub const ASSUMED_BANDWIDTH_MBPS: u32 = 1000;

/// The profiler of the cluster's network.
pub struct TopologyProfiler;

impl TopologyProfiler {
    /// Classifies a link by its bandwidth and latency.
    pub fn estimate_link_quality(measurement: &LinkMeasurement) -> (r: LinkQuality)
        ensures
            r == link_quality(measurement.bandwidth_mbps, measurement.latency_us),
    {
        if measurement.bandwidth_mbps >= 10000 && measurement.latency_us < 100 {
            LinkQuality::Excellent
        } else if measurement.bandwidth_mbps >= 2500 && measurement.latency_us < 500 {
            LinkQuality::Good
        } else if measurement.bandwidth_mbps >= 1000 && measurement.latency_us < 2000 {
            LinkQuality::Acceptable
        } else {
            LinkQuality::Poor
        }
    }

    /// The links to measure between the nodes: every pair once, the earlier
    /// node first, in order.
    pub fn link_pairs(ids: &Vec<NodeId>) -> (r: Vec<(NodeId, NodeId)>)
        ensures
            r@ == pairs_from(ids@, 0),
    {
        let mut r: Vec<(NodeId, NodeId)> = Vec::new();
        let mut i: usize = 0;
        assert(r@ + pairs_from(ids@, 0) =~= pairs_from(ids@, 0));
        while i < ids.len()
            invariant
                i <= ids@.len(),
                r@ + pairs_from(ids@, i as int) == pairs_from(ids@, 0),
            decreases ids@.len() - i,
        {
            let ghost row = ids@.subrange(i + 1, ids@.len() as int).map_values(|b: NodeId| (ids@[i as int], b));
            let ghost start = r@;
            let mut j: usize = i + 1;
            while j < ids.len()
                invariant
                    i < ids@.len(),
                    i + 1 <= j <= ids@.len(),
                    row == ids@.subrange(i + 1, ids@.len() as int).map_values(|b: NodeId| (ids@[i as int], b)),
                    r@ == start + row.take(j - i - 1),
                decreases ids@.len() - j,
            {
                r.push((ids[i], ids[j]));
                assert(row.take(j - i) =~= row.take(j - i - 1).push((ids@[i as int], ids@[j as int])));
                j = j + 1;
            }
            assert(row.take(j - i - 1) =~= row);
            assert(start + (row + pairs_from(ids@, i + 1)) =~= r@ + pairs_from(ids@, i + 1));
            i = i + 1;
        }
        assert(r@ + pairs_from(ids@, i as int) =~= r@);
        r
    }

    /// The topology entry a node starts with: CPU score 100.0, 16 GiB of
    /// usable memory, one CPU device.
    pub fn default_node_topology() -> (r: NodeTopology)
        ensures
            r.cpu_score_bits == 0x42c8_0000,
            r.ram_usable_bytes == 16 * 1024 * 1024 * 1024,
            r.devices@.len() == 1,
            r.devices@[0]@ == "cpu:0"@,
    {
        let mut devices: Vec<String> = Vec::new();
        devices.push(String::from_str("cpu:0"));
        NodeTopology { cpu_score_bits: 0x42c8_0000, ram_usable_bytes: 16 * 1024 * 1024 * 1024, devices }
    }

    /// A measurement of a TCP link with the measured figures, fresh random
    /// endpoint ids and no packet loss.
    pub fn link_measurement(latency_us: u32, bandwidth_mbps: u32, jitter_us: u32) -> (r: LinkMeasurement)
        ensures
            r.transport@ == "tcp"@,
            r.latency_us == latency_us,
            r.bandwidth_mbps == bandwidth_mbps,
            r.jitter_us == jitter_us,
            r.packet_loss_bits == 0,
    {
        LinkMeasurement {
            from: new_uuid(),
            to: new_uuid(),
            transport: String::from_str("tcp"),
            latency_us,
            bandwidth_mbps,
            jitter_us,
            packet_loss_bits: 0,
        }
    }
}

} // verus!
