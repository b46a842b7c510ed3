//! The arq strategy's derived quantities and the resize step.

use holo_dht::arq::{
    resize_step, resize_to_fixed_point, Arq, ArqClamping, ArqStrat, LocalStorageConfig, PeerStrat,
    ViewStats,
};
use holo_dht::spacetime::Topology;

fn strat(min_coverage: u32, buffer_ppt: u32) -> ArqStrat {
    ArqStrat {
        min_coverage,
        buffer_ppt,
        max_power_diff: 2,
        slacker_ratio_ppt: 750,
        power_std_dev_threshold_ppt: 1000,
        local_storage: LocalStorageConfig { arc_clamping: None },
    }
}

/// min_coverage 50 with buffer 0.143: the chunk window is 8 to 15, its
/// log2 floor is 3, and the max coverage is ceil(50 * 1.143) = 58.
#[test]
fn derived_quantities_at_min_coverage_50() {
    let s = strat(50, 143);
    assert_eq!(s.min_chunks(), 8);
    assert_eq!(s.max_chunks(), 15);
    assert_eq!(s.max_chunks_log2(), 3);
    assert_eq!(s.max_coverage(), 58);
    // Buffer width 50 * 0.143 = 7.15, in thousandths.
    assert_eq!(s.buffer_width(), 7150);
    // Midline (50 + 58) / 2 = 54, in thousandths.
    assert_eq!(s.midline_coverage(), 54000);
}

#[test]
fn standard_strategy_values() {
    let s = ArqStrat::standard(LocalStorageConfig::default());
    assert_eq!(s.min_coverage, 100);
    assert_eq!(s.buffer_ppt, 143);
    assert_eq!(s.max_power_diff, 2);
    assert_eq!(s.slacker_ratio_ppt, 750);
    // max_chunks is always odd, so a power downshift on overflow is
    // lossless.
    assert_eq!(s.max_chunks() % 2, 1);
}

fn view(num_peers: u32, coverage: u64) -> ViewStats {
    ViewStats {
        num_peers,
        coverage_ppt: coverage * 1000,
        median_power: 4,
    }
}

#[test]
fn equilibrium_is_a_fixed_point() {
    let s = strat(50, 143);
    let arq = Arq {
        center: 0x8000_0000,
        power: 4,
        count: 10,
    };
    // Coverage inside [50, 58], plenty of peers: nothing changes.
    let v = view(100, 54);
    let r = resize_step(&s, arq, &v);
    assert_eq!(r, arq);
}

#[test]
fn undercoverage_grows_and_overcoverage_shrinks() {
    let s = strat(50, 143);
    let arq = Arq {
        center: 0,
        power: 4,
        count: 10,
    };
    let grown = resize_step(&s, arq, &view(100, 10));
    assert!(grown.count > arq.count || grown.power > arq.power);
    let shrunk = resize_step(&s, arq, &view(100, 100));
    assert!(shrunk.count < arq.count || shrunk.power < arq.power);
}

#[test]
fn growth_past_max_chunks_requantizes() {
    let s = strat(50, 143);
    // At max_chunks (15) and a power near the median, growing overflows
    // to an even 16 and downshifts losslessly: power + 1, count 8.
    let arq = Arq {
        center: 0,
        power: 4,
        count: 15,
    };
    let grown = resize_step(&s, arq, &view(100, 10));
    assert_eq!(grown.power, 5);
    assert_eq!(grown.count, 8);
    // The covered span is preserved plus one chunk.
    assert_eq!(grown.length(), arq.length() + 16);
}

#[test]
fn power_diff_blocks_requantization() {
    let mut s = strat(50, 143);
    s.max_power_diff = 0;
    // Median power far from ours: grow past the bound instead of
    // requantizing.
    let arq = Arq {
        center: 0,
        power: 4,
        count: 15,
    };
    let v = ViewStats {
        num_peers: 100,
        coverage_ppt: 10_000,
        median_power: 4,
    };
    let grown = resize_step(&s, arq, &v);
    assert_eq!(grown.power, 4);
    assert_eq!(grown.count, 16);
}

#[test]
fn clamped_arcs_never_resize() {
    let mut s = strat(50, 143);
    s.local_storage.arc_clamping = Some(ArqClamping::Empty);
    let arq = Arq {
        center: 0,
        power: 4,
        count: 10,
    };
    assert_eq!(resize_step(&s, arq, &view(100, 10)), arq);
    assert_eq!(resize_step(&s, arq, &view(100, 100)), arq);
}

/// Under a stable peer view the loop reaches a fixed point within the
/// budget: growth saturates at the full ring, shrinking at the empty
/// arc.
#[test]
fn resize_reaches_fixed_point_under_stable_view() {
    let s = strat(50, 143);
    let arq = Arq {
        center: 0,
        power: 0,
        count: 1,
    };
    // Persistently undercovered: grows until the arc is full.
    let (fixed, done) = resize_to_fixed_point(&s, arq, &view(100, 10), 10_000);
    assert!(done);
    assert!(fixed.length() >= 4096);
    // Persistently overcovered: shrinks to the empty arc.
    let big = Arq {
        center: 0,
        power: 4,
        count: 10,
    };
    // Enough peers are visible that the node is not slacking; the
    // coverage is simply too high.
    let (fixed, done) = resize_to_fixed_point(&s, big, &view(1000, 1000), 10_000);
    assert!(done);
    assert_eq!(fixed.count, 0);
}

#[test]
fn peer_strat_view_carries_peers() {
    let s = strat(50, 143);
    let topo = Topology::standard(0);
    let peers = [
        Arq {
            center: 0,
            power: 4,
            count: 4,
        },
        Arq {
            center: 99,
            power: 3,
            count: 2,
        },
    ];
    let strat = PeerStrat::Quantized(s);
    let v = strat.view(topo, &peers);
    assert_eq!(v.peers.len(), 2);
    assert_eq!(v.topo, topo);
}

#[test]
fn arc_containment_wraps_the_ring() {
    // A full arc contains everything.
    let full = Arq {
        center: 0,
        power: 12,
        count: 1,
    };
    assert!(full.contains(0));
    assert!(full.contains(u32::MAX));
    // The empty arc contains nothing.
    let empty = Arq {
        center: 0,
        power: 4,
        count: 0,
    };
    assert!(!empty.contains(0));
    // An arc centered at 0 wraps: it covers locations just below the
    // top of the ring.
    let arc = Arq {
        center: 0,
        power: 0,
        count: 9,
    };
    assert!(arc.contains(0));
    assert!(arc.contains(u32::MAX));
}

#[test]
fn summary_renders_the_window() {
    let s = strat(50, 143);
    assert_eq!(
        s.summary(),
        "min coverage: 50\nmax coverage: 58\nmin chunks: 8\nmax chunks: 15\n"
    );
}
