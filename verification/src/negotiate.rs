//! Buffer-size negotiation: picking a stream buffer length compatible with
//! both the device's advertised configurations and a preferred target length.
//!
//! The negotiator sees only plain configuration values; which direction's
//! configurations the caller reads them from is the caller's documented
//! choice (the driver deliberately reads output-direction metadata as a proxy
//! even for an input stream).

use vstd::prelude::*;

verus! {

/// Buffer length, in frames, used when the device offers no ranged
/// configuration or when configuration enumeration fails entirely.
pub const FALLBACK_BUFFER_SIZE: u32 = 1024;

/// One advertised stream configuration's buffer-size policy: either a range
/// of acceptable buffer lengths (in frames) or no stated bounds.
#[derive(Clone, Copy, PartialEq, Eq, Structural, Debug)]
pub enum BufferSizePolicy {
    /// The device reports no buffer-size bounds for this configuration.
    Unknown,
    /// The device accepts buffer lengths between `min` and `max` frames.
    Range { min: u32, max: u32 },
}

/// Whether `policy` is a range that strictly contains `preferred`.
pub open spec fn strictly_contains(policy: BufferSizePolicy, preferred: u32) -> bool {
    match policy {
        BufferSizePolicy::Range { min, max } => min < preferred && preferred < max,
        BufferSizePolicy::Unknown => false,
    }
}

/// The minimum bound of the last ranged configuration in `configs`, if any.
pub open spec fn last_range_min(configs: Seq<BufferSizePolicy>) -> Option<u32>
    decreases configs.len(),
{
    if configs.len() == 0 {
        None
    } else {
        match configs.last() {
            BufferSizePolicy::Range { min, max } => Some(min),
            BufferSizePolicy::Unknown => last_range_min(configs.drop_last()),
        }
    }
}

/// The negotiated buffer size: the preferred length when some configuration's
/// range strictly contains it; otherwise the minimum bound of the last ranged
/// configuration seen; otherwise the fallback.
pub open spec fn spec_negotiate(configs: Seq<BufferSizePolicy>, preferred: u32) -> u32 {
    if exists|i: int| 0 <= i < configs.len() && #[trigger] strictly_contains(configs[i], preferred) {
        preferred
    } else {
        match last_range_min(configs) {
            Some(m) => m,
            None => FALLBACK_BUFFER_SIZE,
        }
    }
}

/// Picks the stream buffer length for a device whose advertised
/// configurations are `configs`, or that failed to enumerate them (`None`).
///
/// A failed enumeration is a recovered condition, not an error: it yields the
/// fallback at once. Otherwise the first configuration whose range strictly
/// contains `preferred` wins and yields `preferred` itself; failing that, the
/// minimum bound of the last ranged configuration is used, and with no ranged
/// configuration at all, the fallback. The result need not be a power of two.
pub fn negotiate_buffer_size(configs: Option<&Vec<BufferSizePolicy>>, preferred: u32) -> (size: u32)
    ensures
        configs matches Some(cs) ==> size == spec_negotiate(cs@, preferred),
        configs is None ==> size == FALLBACK_BUFFER_SIZE,
{
    let cs: &Vec<BufferSizePolicy> = match configs {
        Some(cs) => cs,
        None => {
            return FALLBACK_BUFFER_SIZE;
        },
    };
    let mut min_seen: Option<u32> = None;
    let mut i: usize = 0;
    while i < cs.len()
        invariant
            configs == Some(cs),
            i <= cs@.len(),
            forall|j: int| 0 <= j < i ==> !strictly_contains(cs@[j], preferred),
            min_seen == last_range_min(cs@.take(i as int)),
        decreases cs@.len() - i,
    {
        match cs[i] {
            BufferSizePolicy::Range { min, max } => {
                if min < preferred && preferred < max {
                    proof {
                        assert(strictly_contains(cs@[i as int], preferred));
                    }
                    return preferred;
                }
                min_seen = Some(min);
            },
            BufferSizePolicy::Unknown => {},
        }
        proof {
            assert(cs@.take(i as int + 1).drop_last() =~= cs@.take(i as int));
            assert(cs@.take(i as int + 1).last() == cs@[i as int]);
        }
        i = i + 1;
    }
    proof {
        assert(cs@.take(cs@.len() as int) =~= cs@);
    }
    match min_seen {
        Some(m) => m,
        None => FALLBACK_BUFFER_SIZE,
    }
}

/// Whether `policy`, if ranged, has a positive minimum bound.
pub open spec fn min_bound_positive(policy: BufferSizePolicy) -> bool {
    match policy {
        BufferSizePolicy::Range { min, max } => min >= 1,
        BufferSizePolicy::Unknown => true,
    }
}

/// Whether every ranged configuration in `configs` has a positive minimum
/// bound.
pub open spec fn positive_range_mins(configs: Seq<BufferSizePolicy>) -> bool {
    forall|i: int| 0 <= i < configs.len() ==> min_bound_positive(#[trigger] configs[i])
}

proof fn lemma_last_range_min_positive(configs: Seq<BufferSizePolicy>)
    requires
        positive_range_mins(configs),
    ensures
        match last_range_min(configs) {
            Some(m) => m >= 1,
            None => true,
        },
    decreases configs.len(),
{
    if configs.len() > 0 {
        assert(configs.last() == configs[configs.len() - 1]);
        match configs.last() {
            BufferSizePolicy::Range { min, max } => {},
            BufferSizePolicy::Unknown => {
                assert forall|i: int| 0 <= i < configs.drop_last().len() implies min_bound_positive(
                    #[trigger] configs.drop_last()[i],
                ) by {
                    assert(configs.drop_last()[i] == configs[i]);
                }
                lemma_last_range_min_positive(configs.drop_last());
            },
        }
    }
}

/// The negotiated buffer size is a positive integer whenever every ranged
/// configuration has a positive minimum bound: the preferred branch returns a
/// value strictly above some such minimum, the remembered-minimum branch
/// returns one of the minima themselves, and the fallback is positive.
pub proof fn lemma_negotiated_size_positive(configs: Seq<BufferSizePolicy>, preferred: u32)
    requires
        positive_range_mins(configs),
    ensures
        spec_negotiate(configs, preferred) >= 1,
{
    if exists|i: int| 0 <= i < configs.len() && strictly_contains(configs[i], preferred) {
        let i = choose|i: int| 0 <= i < configs.len() && strictly_contains(configs[i], preferred);
        match configs[i] {
            BufferSizePolicy::Range { min, max } => {
                assert(preferred > min >= 1);
            },
            BufferSizePolicy::Unknown => {},
        }
    } else {
        lemma_last_range_min_positive(configs);
    }
}

} // verus!
