use cubeplan::error::{
    AutotuneError, ConvLaunchError, InvalidConfigError, MatmulAvailabilityError, MatmulLaunchError,
};
use cubeplan::tiling2d::CubeCount;

#[test]
fn groups_message_carries_the_count() {
    let e = ConvLaunchError::Groups(3);
    assert_eq!(
        e.debug_string(),
        "Unable to launch matmul because groups must be one, is actually 3\n"
    );
    let e = ConvLaunchError::Groups(120);
    assert_eq!(
        e.debug_string(),
        "Unable to launch matmul because groups must be one, is actually 120\n"
    );
}

#[test]
fn plain_variant_messages() {
    assert_eq!(
        ConvLaunchError::CubeCountTooLarge.debug_string(),
        "The cube count is larger than the max supported."
    );
    assert_eq!(ConvLaunchError::Unknown.debug_string(), "Unknown");
}

#[test]
fn matmul_error_wraps_unchanged() {
    let inner = MatmulLaunchError::Unavailable(MatmulAvailabilityError::CubeCountTooBig(
        CubeCount::Static(70000, 1, 2),
    ));
    let e = ConvLaunchError::from(inner);
    assert_eq!(e, ConvLaunchError::Matmul(inner));
    assert_eq!(
        e.debug_string(),
        "Unable to launch matmul because a required feature is unavailable: \
         The cube count is larger than the max supported: (70000, 1, 2)"
    );
}

#[test]
fn availability_error_wraps_as_unavailable() {
    let inner = MatmulAvailabilityError::CubeCountTooBig(CubeCount::Dynamic);
    let e = ConvLaunchError::from(inner);
    assert_eq!(
        e,
        ConvLaunchError::Matmul(MatmulLaunchError::Unavailable(inner))
    );
}

#[test]
fn invalid_config_message() {
    let e = ConvLaunchError::Matmul(MatmulLaunchError::InvalidConfig(
        InvalidConfigError::SharedMemoryLimitExceeded {
            elem_size: 4,
            block_size_k: 16,
            block_size_max_mn: 64,
            max_shared_memory_size: 1024,
        },
    ));
    assert_eq!(
        e.debug_string(),
        "Unable to launch matmul because the config is invalid: Shared memory limit will be busted. "
    );
}

#[test]
fn every_error_collapses_to_one_tuning_report() {
    let e = ConvLaunchError::Groups(2);
    let expected = e.debug_string();
    let AutotuneError::Unknown(msg) = e.into_tune_error();
    assert_eq!(msg, expected);
    let e = ConvLaunchError::Unknown;
    let AutotuneError::Unknown(msg) = e.into_tune_error();
    assert_eq!(msg, "Unknown");
}
