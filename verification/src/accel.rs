//! The batch accelerator boundary.
//!
//! An external compute device takes part in the search through a narrow
//! call/return contract: an initialization outcome code with device
//! properties, and per-batch a status code and a small results buffer of
//! eleven 32-bit words — a found flag, the matching counter split into
//! two halves, and the 32-byte candidate packed into eight words.  The
//! device calls themselves live outside this library; the decoding of
//! their outcomes is verified here.

use vstd::prelude::*;

verus! {

/// Why an accelerator failed to initialize.
#[derive(Clone, Copy, PartialEq, Eq, Structural, Debug)]
pub enum AcceleratorInitError {
    NoDevice,
    DevicePropertiesQuery,
    DeviceSelection,
    ResultsBufferAllocation,
    PrefixBufferAllocation,
    Unknown(i32),
}

/// Why a batch call failed at run time.
#[derive(Clone, Copy, PartialEq, Eq, Structural, Debug)]
pub enum AcceleratorRuntimeError {
    NotInitialized,
    PrefixTransfer,
    ResultsBufferInit,
    KernelExecution,
    ResultsRetrieval,
    Unknown(i32),
}

/// A handle to an initialized accelerator device: the properties that
/// the initialization call reported.
#[derive(Debug)]
pub struct CudaVanityGenerator {
    max_threads_per_block: i32,
    device_name: String,
}

impl CudaVanityGenerator {
    pub closed spec fn spec_max_threads(&self) -> i32 {
        self.max_threads_per_block
    }

    pub closed spec fn spec_device_name(&self) -> Seq<char> {
        self.device_name@
    }

    /// Interprets the device initialization outcome: code `0` is
    /// success and yields a handle carrying the reported properties;
    /// each negative code names one failure; any other code is unknown.
    pub fn from_init_code(code: i32, max_threads_per_block: i32, device_name: String) -> (r:
        Result<CudaVanityGenerator, AcceleratorInitError>)
        ensures
            code == 0 ==> r is Ok && r->Ok_0.spec_max_threads() == max_threads_per_block
                && r->Ok_0.spec_device_name() == device_name@,
            code == -1 ==> r == Err::<CudaVanityGenerator, _>(AcceleratorInitError::NoDevice),
            code == -2 ==> r == Err::<CudaVanityGenerator, _>(
                AcceleratorInitError::DevicePropertiesQuery,
            ),
            code == -3 ==> r == Err::<CudaVanityGenerator, _>(AcceleratorInitError::DeviceSelection),
            code == -4 ==> r == Err::<CudaVanityGenerator, _>(
                AcceleratorInitError::ResultsBufferAllocation,
            ),
            code == -5 ==> r == Err::<CudaVanityGenerator, _>(
                AcceleratorInitError::PrefixBufferAllocation,
            ),
            code != 0 && !(-5 <= code <= -1) ==> r == Err::<CudaVanityGenerator, _>(
                AcceleratorInitError::Unknown(code),
            ),
    {
        if code == 0 {
            Ok(CudaVanityGenerator { max_threads_per_block, device_name })
        } else if code == -1 {
            Err(AcceleratorInitError::NoDevice)
        } else if code == -2 {
            Err(AcceleratorInitError::DevicePropertiesQuery)
        } else if code == -3 {
            Err(AcceleratorInitError::DeviceSelection)
        } else if code == -4 {
            Err(AcceleratorInitError::ResultsBufferAllocation)
        } else if code == -5 {
            Err(AcceleratorInitError::PrefixBufferAllocation)
        } else {
            Err(AcceleratorInitError::Unknown(code))
        }
    }

    pub fn get_max_threads_per_block(&self) -> (r: usize)
        ensures
            r == self.spec_max_threads() as usize,
    {
        self.max_threads_per_block as usize
    }

    pub fn get_device_name(&self) -> (r: String)
        ensures
            r@ == self.spec_device_name(),
    {
        self.device_name.clone()
    }
}

/// The 64-bit counter recombined from its two 32-bit halves.
pub open spec fn recombined_counter(low: u32, high: u32) -> u64 {
    (low as u64) | ((high as u64) << 32u64)
}

/// Byte `j` of a 32-bit word, least significant byte first.
pub open spec fn word_byte(w: u32, j: int) -> u8
    recommends
        0 <= j < 4,
{
    ((w >> ((8 * j) as u32)) & 0xff) as u8
}

/// The 32 candidate bytes packed into words 3 to 10 of a results buffer.
pub open spec fn packed_key_bytes(words: Seq<u32>) -> Seq<u8>
    recommends
        words.len() == 11,
{
    Seq::new(32, |i: int| word_byte(words[3 + i / 4], i % 4))
}

/// Interprets a batch call's outcome: on status code `0`, word 0 of the
/// results buffer says whether a match was found, words 1 and 2 hold the
/// matching counter, and words 3 to 10 hold the candidate; each negative
/// code names one runtime failure.
pub fn decode_search_results(code: i32, results: &Vec<u32>) -> (r: Result<
    Option<(u64, Vec<u8>)>,
    AcceleratorRuntimeError,
>)
    requires
        results@.len() == 11,
    ensures
        code == 0 && results@[0] == 0 ==> r is Ok && r->Ok_0 is None,
        code == 0 && results@[0] != 0 ==> r is Ok && r->Ok_0 is Some && {
            let (counter, key_data) = r->Ok_0->0;
            &&& counter == recombined_counter(results@[1], results@[2])
            &&& key_data@ == packed_key_bytes(results@)
        },
        code == -1 ==> r == Err::<Option<(u64, Vec<u8>)>, _>(AcceleratorRuntimeError::NotInitialized),
        code == -2 ==> r == Err::<Option<(u64, Vec<u8>)>, _>(AcceleratorRuntimeError::PrefixTransfer),
        code == -3 ==> r == Err::<Option<(u64, Vec<u8>)>, _>(
            AcceleratorRuntimeError::ResultsBufferInit,
        ),
        code == -4 ==> r == Err::<Option<(u64, Vec<u8>)>, _>(
            AcceleratorRuntimeError::KernelExecution,
        ),
        code == -5 ==> r == Err::<Option<(u64, Vec<u8>)>, _>(
            AcceleratorRuntimeError::ResultsRetrieval,
        ),
        code != 0 && !(-5 <= code <= -1) ==> r == Err::<Option<(u64, Vec<u8>)>, _>(
            AcceleratorRuntimeError::Unknown(code),
        ),
{
    if code == 0 {
        let found_flag = results[0];
        if found_flag != 0 {
            let counter_low = results[1] as u64;
            let counter_high = results[2] as u64;
            let counter = counter_low | (counter_high << 32u64);
            let mut key_data: Vec<u8> = Vec::new();
            let mut i: usize = 0;
            while i < 8
                invariant
                    i <= 8,
                    results@.len() == 11,
                    key_data@.len() == 4 * i,
                    forall|k: int|
                        0 <= k < key_data@.len() ==> key_data@[k] == word_byte(
                            results@[3 + k / 4],
                            k % 4,
                        ),
                decreases 8 - i,
            {
                let chunk = results[3 + i];
                let mut j: usize = 0;
                while j < 4
                    invariant
                        j <= 4,
                        i < 8,
                        results@.len() == 11,
                        chunk == results@[3 + i],
                        key_data@.len() == 4 * i + j,
                        forall|k: int|
                            0 <= k < key_data@.len() ==> key_data@[k] == word_byte(
                                results@[3 + k / 4],
                                k % 4,
                            ),
                    decreases 4 - j,
                {
                    let shift: u32 = 8 * (j as u32);
                    key_data.push(((chunk >> shift) & 0xff) as u8);
                    proof {
                        let k = 4 * i + j;
                        assert(3 + k / 4 == 3 + i && k % 4 == j);
                    }
                    j += 1;
                }
                i += 1;
            }
            proof {
                assert(key_data@ =~= packed_key_bytes(results@));
            }
            Ok(Some((counter, key_data)))
        } else {
            Ok(None)
        }
    } else if code == -1 {
        Err(AcceleratorRuntimeError::NotInitialized)
    } else if code == -2 {
        Err(AcceleratorRuntimeError::PrefixTransfer)
    } else if code == -3 {
        Err(AcceleratorRuntimeError::ResultsBufferInit)
    } else if code == -4 {
        Err(AcceleratorRuntimeError::KernelExecution)
    } else if code == -5 {
        Err(AcceleratorRuntimeError::ResultsRetrieval)
    } else {
        Err(AcceleratorRuntimeError::Unknown(code))
    }
}

} // verus!
