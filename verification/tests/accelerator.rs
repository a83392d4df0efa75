use vanity_id::accel::{
    decode_search_results, AcceleratorInitError, AcceleratorRuntimeError, CudaVanityGenerator,
};
use vanity_id::run::match_attempts;

#[test]
fn init_success_carries_device_properties() {
    let device = CudaVanityGenerator::from_init_code(0, 1024, "test device".to_string())
        .expect("code 0 is success");
    assert_eq!(device.get_max_threads_per_block(), 1024);
    assert_eq!(device.get_device_name(), "test device");
}

#[test]
fn init_failure_codes_map_to_errors() {
    let name = || "unused".to_string();
    assert_eq!(
        CudaVanityGenerator::from_init_code(-1, 0, name()).unwrap_err(),
        AcceleratorInitError::NoDevice
    );
    assert_eq!(
        CudaVanityGenerator::from_init_code(-2, 0, name()).unwrap_err(),
        AcceleratorInitError::DevicePropertiesQuery
    );
    assert_eq!(
        CudaVanityGenerator::from_init_code(-3, 0, name()).unwrap_err(),
        AcceleratorInitError::DeviceSelection
    );
    assert_eq!(
        CudaVanityGenerator::from_init_code(-4, 0, name()).unwrap_err(),
        AcceleratorInitError::ResultsBufferAllocation
    );
    assert_eq!(
        CudaVanityGenerator::from_init_code(-5, 0, name()).unwrap_err(),
        AcceleratorInitError::PrefixBufferAllocation
    );
    assert_eq!(
        CudaVanityGenerator::from_init_code(-77, 0, name()).unwrap_err(),
        AcceleratorInitError::Unknown(-77)
    );
}

#[test]
fn decode_reports_no_match() {
    let words = vec![0u32; 11];
    assert_eq!(decode_search_results(0, &words), Ok(None));
}

#[test]
fn decode_reconstructs_counter_and_key() {
    let mut words = vec![0u32; 11];
    words[0] = 1;
    words[1] = 0x89ab_cdef; // low half
    words[2] = 0x0123_4567; // high half
    for i in 0..8 {
        // word i packs bytes 4i..4i+4, least significant byte first
        let b = |k: u32| (4 * i as u32 + k + 10) & 0xff;
        words[3 + i] = b(0) | (b(1) << 8) | (b(2) << 16) | (b(3) << 24);
    }
    let (counter, key) = decode_search_results(0, &words)
        .expect("code 0 is success")
        .expect("found flag set");
    assert_eq!(counter, 0x0123_4567_89ab_cdef);
    assert_eq!(key.len(), 32);
    for (idx, byte) in key.iter().enumerate() {
        assert_eq!(*byte, ((idx + 10) & 0xff) as u8);
    }
}

#[test]
fn decode_failure_codes_map_to_errors() {
    let words = vec![0u32; 11];
    assert_eq!(
        decode_search_results(-1, &words).unwrap_err(),
        AcceleratorRuntimeError::NotInitialized
    );
    assert_eq!(
        decode_search_results(-2, &words).unwrap_err(),
        AcceleratorRuntimeError::PrefixTransfer
    );
    assert_eq!(
        decode_search_results(-3, &words).unwrap_err(),
        AcceleratorRuntimeError::ResultsBufferInit
    );
    assert_eq!(
        decode_search_results(-4, &words).unwrap_err(),
        AcceleratorRuntimeError::KernelExecution
    );
    assert_eq!(
        decode_search_results(-5, &words).unwrap_err(),
        AcceleratorRuntimeError::ResultsRetrieval
    );
    assert_eq!(
        decode_search_results(12, &words).unwrap_err(),
        AcceleratorRuntimeError::Unknown(12)
    );
}

#[test]
fn batch_attempt_accounting_is_inclusive() {
    assert_eq!(match_attempts(10, 3), 8);
    assert_eq!(match_attempts(0, 0), 1);
    assert_eq!(match_attempts(999_999, 0), 1_000_000);
}
