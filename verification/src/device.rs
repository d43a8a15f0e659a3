//! Generators for device-level configuration records.

use vstd::prelude::*;

verus! {

use crate::driver::Driver;
use crate::schema::{LogLevel, distinct_keys, map_insert};
use crate::support::{alpha_numeric_chars, gen_from_chars};
use crate::text::{dec_text, push_char, push_dec_u64};

/// Tracing configuration: a default level and per-tag overrides.
#[derive(Clone, Debug)]
pub struct TracingConfig {
    pub default: i32,
    pub taglevel: Vec<(String, i32)>,
}

/// Every tag is the shared stem, a dash, and a slot index.
pub open spec fn tracing_tags_shaped(m: Seq<(String, i32)>, stem: Seq<char>) -> bool {
    forall|i: int|
        0 <= i < m.len() ==> exists|k: nat|
            1 <= k <= 10 && (#[trigger] m[i]).0@ == stem + seq!['-'] + dec_text(k)
}

/// The tracing invariant: levels in range, a bounded number of tags, keys
/// pairwise distinct and non-empty, all sharing one short stem and ending
/// in their index.
pub open spec fn tracing_config_wf(t: TracingConfig) -> bool {
    &&& 0 <= t.default <= 5
    &&& 1 <= t.taglevel@.len() <= 10
    &&& distinct_keys(t.taglevel@)
    &&& (exists|stem: Seq<char>| 1 <= stem.len() <= 12 && tracing_tags_shaped(t.taglevel@, stem))
    &&& forall|i: int|
        0 <= i < t.taglevel@.len() ==> (#[trigger] t.taglevel@[i]).0@.len() >= 1 && 0
            <= t.taglevel@[i].1 <= 5
}

/// A device: its tracing configuration.
#[derive(Clone, Debug)]
pub struct Device {
    pub tracing: Option<TracingConfig>,
}

/// The device invariant: a well-formed tracing configuration is present.
pub open spec fn device_wf(v: Device) -> bool {
    v.tracing matches Some(t) && tracing_config_wf(t)
}

impl LogLevel {
    /// Select one of the six variants uniformly.
    pub fn generate<D: Driver>(d: &mut D) -> (r: Option<LogLevel>)
        ensures
            r matches Some(t) ==> 0 <= t.as_int() <= 5,
    {
        let index = d.gen_usize(0, 5)?;
        Some(
            match index {
                0 => LogLevel::LogLevelUnspecified,
                1 => LogLevel::LogLevelError,
                2 => LogLevel::LogLevelWarning,
                3 => LogLevel::LogLevelInfo,
                4 => LogLevel::LogLevelDebug,
                _ => LogLevel::LogLevelTrace,
            },
        )
    }
}

impl TracingConfig {
    /// A random stem names the tags; each tag carries its index and its own
    /// random level.
    pub fn generate<D: Driver>(d: &mut D) -> (r: Option<TracingConfig>)
        ensures
            r matches Some(t) ==> tracing_config_wf(t),
    {
        let numtags = d.gen_u16(1, 10)?;
        let tagbase = gen_from_chars(d, alpha_numeric_chars(), 1, 12)?;

        let mut taglevel: Vec<(String, i32)> = Vec::new();
        let mut k: u16 = 1;
        while k <= numtags
            invariant
                1 <= k <= numtags + 1,
                numtags <= 10,
                1 <= tagbase@.len() <= 12,
                taglevel@.len() <= k as nat - 1,
                k > 1 ==> taglevel@.len() >= 1,
                distinct_keys(taglevel@),
                tracing_tags_shaped(taglevel@, tagbase@),
                forall|i: int|
                    0 <= i < taglevel@.len() ==> (#[trigger] taglevel@[i]).0@.len() >= 1 && 0
                        <= taglevel@[i].1 <= 5,
            decreases numtags + 1 - k,
        {
            let mut tag = tagbase.clone();
            push_char(&mut tag, '-');
            push_dec_u64(&mut tag, k as u64);
            proof {
                assert(tag@ =~= tagbase@ + seq!['-'] + dec_text(k as nat));
            }
            let level = LogLevel::generate(d)?;
            map_insert(&mut taglevel, tag, level.to_i32());
            k = k + 1;
        }
        let default = LogLevel::generate(d)?;
        proof {
            assert(tracing_tags_shaped(taglevel@, tagbase@));
        }
        let t = TracingConfig { default: default.to_i32(), taglevel };
        proof {
            assert(tracing_tags_shaped(t.taglevel@, tagbase@));
        }
        Some(t)
    }
}

impl Device {
    /// A device with a generated tracing configuration.
    pub fn generate<D: Driver>(d: &mut D) -> (r: Option<Device>)
        ensures
            r matches Some(v) ==> device_wf(v),
    {
        let t = TracingConfig::generate(d)?;
        Some(Device { tracing: Some(t) })
    }
}

} // verus!
