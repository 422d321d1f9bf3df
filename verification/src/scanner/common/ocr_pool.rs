//! How many recognition models to hold.
use vstd::prelude::*;

verus! {

/// Four gigabytes.
pub const FOUR_GB: u64 = 4_294_967_296;

/// How many models of each kind to hold.
#[derive(Clone, Copy, Debug)]
pub struct OcrPoolConfig {
    pub v5_count: usize,
    pub v4_count: usize,
}

impl OcrPoolConfig {
    /// Chooses the sizes by the available memory: the small sizes below four
    /// gigabytes, the normal ones from there on and where the memory is not
    /// known.
    pub fn detect(available: Option<u64>) -> (config: Self)
        ensures
            (config.v5_count as int, config.v4_count as int) == models_for(available),
    {
        match available {
            Some(bytes) => {
                if bytes < FOUR_GB {
                    OcrPoolConfig { v5_count: 1, v4_count: 2 }
                } else {
                    OcrPoolConfig { v5_count: 2, v4_count: 4 }
                }
            },
            None => OcrPoolConfig { v5_count: 2, v4_count: 4 },
        }
    }
}

/// How many models of each kind are held with so many bytes of memory.
pub open spec fn models_for(available: Option<u64>) -> (int, int) {
    match available {
        Some(bytes) => if bytes < FOUR_GB {
            (1, 2)
        } else {
            (2, 4)
        },
        None => (2, 4),
    }
}

/// Below four gigabytes half as many models are held; where the memory is not
/// known, as many as with four.
pub proof fn little_memory_holds_half_the_models(bytes: u64)
    ensures
        bytes < 4 * 1024 * 1024 * 1024 ==> models_for(Some(bytes)) == (1int, 2int),
        bytes >= 4 * 1024 * 1024 * 1024 ==> models_for(Some(bytes)) == (2int, 4int),
        models_for(None) == (2int, 4int),
{
}

} // verus!
