//! Run-time parameters of the inference session, chosen from the machine's
//! memory and core count, and the search order for the model file.

use crate::model::opt_text;
use crate::text::{chars_of, parse_unsigned, parsed_unsigned, trim_chars, trimmed};
use vstd::prelude::*;

verus! {

/// Whether inference is available.
#[derive(Clone, Copy, Debug, PartialEq, Eq, Structural)]
pub enum Mode {
    Disabled,
    Enabled,
}

/// The first entry of the list that holds a path.
pub open spec fn first_found(found: Seq<Option<String>>) -> Option<Seq<char>>
    decreases found.len(),
{
    if found.len() == 0 {
        None
    } else if found[0] is Some {
        opt_text(found[0])
    } else {
        first_found(found.drop_first())
    }
}

/// The model file by priority: the explicit override, then the file that the
/// environment names, then the first file found in the candidate directories.
pub open spec fn picked_model(
    fixed: Option<String>,
    from_env: Option<String>,
    found: Seq<Option<String>>,
) -> Option<Seq<char>> {
    if fixed is Some {
        opt_text(fixed)
    } else if from_env is Some {
        opt_text(from_env)
    } else {
        first_found(found)
    }
}

/// Picks the model file. Each argument is what one source of the search
/// gave: a usable model file, or nothing; `found[i]` is what the `i`-th
/// candidate directory gave.
pub fn pick_model(fixed: Option<String>, from_env: Option<String>, found: &Vec<Option<String>>) -> (r:
    Option<String>)
    ensures
        opt_text(r) == picked_model(fixed, from_env, found@),
{
    if fixed.is_some() {
        return fixed;
    }
    if from_env.is_some() {
        return from_env;
    }
    let mut i: usize = 0;
    assert(found@.subrange(0, found.len() as int) == found@);
    while i < found.len()
        invariant
            i <= found.len(),
            fixed is None,
            from_env is None,
            first_found(found@) == first_found(found@.subrange(i as int, found.len() as int)),
        decreases found.len() - i,
    {
        let ghost rest = found@.subrange(i as int, found.len() as int);
        assert(rest[0] == found@[i as int]);
        assert(rest.drop_first() == found@.subrange(i + 1, found.len() as int));
        match &found[i] {
            Some(p) => {
                return Some(p.clone());
            },
            None => {},
        }
        i += 1;
    }
    None
}

/// Settles the model path on first use. A path that is known stays, and the
/// search result is ignored; otherwise the search result becomes the path.
/// Inference is enabled exactly when a path is known afterwards.
pub fn init_if_available(known: &mut Option<String>, picked: Option<String>) -> (mode: Mode)
    ensures
        *old(known) is Some ==> *final(known) == *old(known),
        *old(known) is None ==> *final(known) == picked,
        mode == if *final(known) is Some {
            Mode::Enabled
        } else {
            Mode::Disabled
        },
{
    if known.is_some() {
        return Mode::Enabled;
    }
    match picked {
        Some(p) => {
            *known = Some(p);
            Mode::Enabled
        },
        None => Mode::Disabled,
    }
}

/// The parameters of one inference session.
#[derive(Clone, Copy, Debug, PartialEq, Eq, Structural)]
pub struct HwTuning {
    pub n_threads: usize,
    pub n_ctx: usize,
    pub n_batch: usize,
    pub max_tokens: usize,
    pub wall_time_ms: u64,
}

/// Explicit settings that take the place of the chosen parameters.
#[derive(Clone, Copy, Debug, PartialEq, Eq, Structural)]
pub struct TuningOverrides {
    pub threads: Option<usize>,
    pub ctx: Option<usize>,
    pub batch: Option<usize>,
    pub max_tokens: Option<usize>,
    pub wall_time_ms: Option<u64>,
}

/// One gibibyte, in bytes.
pub const GIB: u64 = 0x4000_0000;

/// Under this many gibibytes of memory the session is kept small.
pub const LOW_MEMORY_GIB: u64 = 8;

/// From this many gibibytes of memory on the session is made large.
pub const HIGH_MEMORY_GIB: u64 = 16;

/// The larger of a setting and its floor.
pub open spec fn at_least(v: usize, floor: usize) -> usize {
    if v < floor {
        floor
    } else {
        v
    }
}

/// The parameters chosen for a machine before any override: the thread
/// count follows the cores, within 2 and 16; context, batch, token budget
/// and time budget follow the memory.
pub open spec fn base_tuning(total_memory_bytes: u64, cores: usize) -> HwTuning {
    let gib = total_memory_bytes / GIB;
    let n_threads: usize = if cores < 2 {
        2
    } else if cores > 16 {
        16
    } else {
        cores
    };
    if gib < LOW_MEMORY_GIB {
        HwTuning { n_threads, n_ctx: 2048, n_batch: 256, max_tokens: 64, wall_time_ms: 5000 }
    } else if gib >= HIGH_MEMORY_GIB {
        HwTuning { n_threads, n_ctx: 4096, n_batch: 1024, max_tokens: 128, wall_time_ms: 8000 }
    } else {
        HwTuning { n_threads, n_ctx: 3072, n_batch: 512, max_tokens: 96, wall_time_ms: 6000 }
    }
}

/// The parameters with the overrides applied, each override raised to its
/// floor.
pub open spec fn tuning_of(total_memory_bytes: u64, cores: usize, o: TuningOverrides) -> HwTuning {
    let base = base_tuning(total_memory_bytes, cores);
    HwTuning {
        n_threads: match o.threads {
            Some(v) => at_least(v, 1),
            None => base.n_threads,
        },
        n_ctx: match o.ctx {
            Some(v) => at_least(v, 512),
            None => base.n_ctx,
        },
        n_batch: match o.batch {
            Some(v) => at_least(v, 32),
            None => base.n_batch,
        },
        max_tokens: match o.max_tokens {
            Some(v) => at_least(v, 16),
            None => base.max_tokens,
        },
        wall_time_ms: match o.wall_time_ms {
            Some(v) => if v < 1000 {
                1000
            } else {
                v
            },
            None => base.wall_time_ms,
        },
    }
}

fn floor_at(v: usize, floor: usize) -> (r: usize)
    ensures
        r == at_least(v, floor),
{
    if v < floor {
        floor
    } else {
        v
    }
}

/// Chooses the session parameters for a machine with the given memory and
/// core count, and applies the overrides.
pub fn hardware_tuning(total_memory_bytes: u64, cores: usize, overrides: &TuningOverrides) -> (t:
    HwTuning)
    ensures
        t == tuning_of(total_memory_bytes, cores, *overrides),
{
    let gib = total_memory_bytes / GIB;
    let n_threads: usize = if cores < 2 {
        2
    } else if cores > 16 {
        16
    } else {
        cores
    };
    let mut tune = HwTuning {
        n_threads,
        n_ctx: 3072,
        n_batch: 512,
        max_tokens: 96,
        wall_time_ms: 6000,
    };
    if gib < LOW_MEMORY_GIB {
        tune.n_ctx = 2048;
        tune.n_batch = 256;
        tune.max_tokens = 64;
        tune.wall_time_ms = 5000;
    } else if gib >= HIGH_MEMORY_GIB {
        tune.n_ctx = 4096;
        tune.n_batch = 1024;
        tune.max_tokens = 128;
        tune.wall_time_ms = 8000;
    }
    if let Some(v) = overrides.threads {
        tune.n_threads = floor_at(v, 1);
    }
    if let Some(v) = overrides.ctx {
        tune.n_ctx = floor_at(v, 512);
    }
    if let Some(v) = overrides.batch {
        tune.n_batch = floor_at(v, 32);
    }
    if let Some(v) = overrides.max_tokens {
        tune.max_tokens = floor_at(v, 16);
    }
    if let Some(v) = overrides.wall_time_ms {
        tune.wall_time_ms = if v < 1000 {
            1000
        } else {
            v
        };
    }
    tune
}

/// Reads a setting written as an unsigned number, white space around it
/// ignored; nothing where the text is no such number or the number does not
/// fit.
pub fn parse_env_u64(text: &str) -> (r: Option<u64>)
    ensures
        r == parsed_unsigned(trimmed(text@), u64::MAX),
{
    let v = chars_of(text);
    let t = trim_chars(&v);
    parse_unsigned(&t, u64::MAX)
}

/// Reads a setting written as an unsigned number that fits a machine word.
pub fn parse_env_usize(text: &str) -> (r: Option<usize>)
    ensures
        match parsed_unsigned(trimmed(text@), usize::MAX as u64) {
            Some(n) => r == Some(n as usize),
            None => r is None,
        },
{
    let v = chars_of(text);
    let t = trim_chars(&v);
    match parse_unsigned(&t, usize::MAX as u64) {
        Some(n) => Some(n as usize),
        None => None,
    }
}

} // verus!
