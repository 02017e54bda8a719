use cubeplan::error::{InvalidConfigError, MatmulAvailabilityError, MatmulLaunchError};
use cubeplan::ir::CubeDim;
use cubeplan::tiling2d::{
    matmul_tiling_2d, matmul_tiling_2d_ref, tiling2d_cube_count, tiling2d_cube_dim, vectorize,
    CubeCount, HardwareProperties, LaunchPlan, TensorHandle, Tiling2dConfig,
};

fn roomy_hw() -> HardwareProperties {
    HardwareProperties {
        max_shared_memory_size: 1 << 20,
        max_cube_count_x: u32::MAX,
        max_cube_count_y: u32::MAX,
        max_cube_count_z: u32::MAX,
    }
}

fn small_config() -> Tiling2dConfig {
    Tiling2dConfig { block_size_m: 2, block_size_k: 2, block_size_n: 2, tile_size: 1, unroll: false }
}

#[test]
fn vectorize_priority_order() {
    assert_eq!(vectorize(8), 4);
    assert_eq!(vectorize(6), 2);
    assert_eq!(vectorize(5), 1);
    assert_eq!(vectorize(1), 1);
}

#[derive(Clone, Copy, PartialEq)]
enum Layout {
    Contiguous,
    Transposed,
    Highly,
}

/// Strides for a rank-3 tensor of shape `[b, r, c]` in the given layout.
fn strides_for(b: usize, r: usize, c: usize, layout: Layout) -> Vec<usize> {
    match layout {
        Layout::Contiguous => vec![r * c, c, 1],
        // matrix stored column-major inside each batch entry
        Layout::Transposed => vec![r * c, 1, r],
        // batch axis strides below the matrix axes: outside the fast path
        Layout::Highly => {
            let _ = b;
            vec![1, c * b, b]
        },
    }
}

fn offset(strides: &[usize], b: usize, i: usize, j: usize) -> usize {
    b * strides[0] + i * strides[1] + j * strides[2]
}

/// Materialize the storage of a logical tensor under the given strides.
fn materialize(
    bsz: usize,
    r: usize,
    c: usize,
    strides: &[usize],
    logical: &dyn Fn(usize, usize, usize) -> i64,
) -> Vec<i64> {
    let len = offset(strides, bsz - 1, r - 1, c - 1) + 1;
    let mut data = vec![0i64; len];
    for b in 0..bsz {
        for i in 0..r {
            for j in 0..c {
                data[offset(strides, b, i, j)] = logical(b, i, j);
            }
        }
    }
    data
}

/// Run the dispatch a plan describes on host data: honor the plan's
/// normalization flags and strides, and accumulate the tiled matmul.
fn execute_plan(
    plan: &LaunchPlan,
    lhs_data: &[i64],
    lhs_strides: &[usize],
    rhs_data: &[i64],
    rhs_strides: &[usize],
) -> Vec<i64> {
    let bsz = plan.out.shape[0];
    let m = plan.config.m;
    let k = plan.config.k;
    let n = plan.config.n;

    // an operand marked for normalization is first copied into a fresh
    // contiguous buffer, exactly as the compute client would
    let copy = |r: usize, c: usize, data: &[i64], strides: &[usize]| -> Vec<i64> {
        let mut out = vec![0i64; bsz * r * c];
        for b in 0..bsz {
            for i in 0..r {
                for j in 0..c {
                    out[b * r * c + i * c + j] = data[offset(strides, b, i, j)];
                }
            }
        }
        out
    };

    let (lhs_eff, lhs_s): (Vec<i64>, Vec<usize>) = if plan.lhs_normalized {
        assert_eq!(plan.lhs.strides, vec![m * k, k, 1]);
        (copy(m, k, lhs_data, lhs_strides), plan.lhs.strides.clone())
    } else {
        assert_eq!(&plan.lhs.strides[..], lhs_strides);
        (lhs_data.to_vec(), lhs_strides.to_vec())
    };
    let (rhs_eff, rhs_s): (Vec<i64>, Vec<usize>) = if plan.rhs_normalized {
        assert_eq!(plan.rhs.strides, vec![k * n, n, 1]);
        (copy(k, n, rhs_data, rhs_strides), plan.rhs.strides.clone())
    } else {
        assert_eq!(&plan.rhs.strides[..], rhs_strides);
        (rhs_data.to_vec(), rhs_strides.to_vec())
    };

    let mut out = vec![0i64; bsz * m * n];
    for b in 0..bsz {
        for i in 0..m {
            for j in 0..n {
                let mut acc = 0i64;
                for l in 0..k {
                    acc += lhs_eff[offset(&lhs_s, b, i, l)] * rhs_eff[offset(&rhs_s, b, l, j)];
                }
                out[b * m * n + i * n + j] = acc;
            }
        }
    }
    out
}

fn naive_matmul(
    bsz: usize,
    m: usize,
    k: usize,
    n: usize,
    lhs: &dyn Fn(usize, usize, usize) -> i64,
    rhs: &dyn Fn(usize, usize, usize) -> i64,
) -> Vec<i64> {
    let mut out = vec![0i64; bsz * m * n];
    for b in 0..bsz {
        for i in 0..m {
            for j in 0..n {
                let mut acc = 0i64;
                for l in 0..k {
                    acc += lhs(b, i, l) * rhs(b, l, j);
                }
                out[b * m * n + i * n + j] = acc;
            }
        }
    }
    out
}

#[test]
fn planner_result_matches_naive_reference() {
    let hw = roomy_hw();
    let bsz = 2usize;
    let lhs_val = |b: usize, i: usize, l: usize| (b * 97 + i * 13 + l * 7) as i64 - 20;
    let rhs_val = |b: usize, l: usize, j: usize| (b * 31 + l * 5 + j * 11) as i64 - 15;
    // one length divisible by four, one by two but not four, one by neither
    for &m in &[4usize, 6, 5] {
        for &k in &[4usize, 6, 5] {
            for &n in &[4usize, 6, 5] {
                for &lhs_layout in &[Layout::Contiguous, Layout::Highly] {
                    for &rhs_layout in &[Layout::Contiguous, Layout::Highly] {
                        let lhs_strides = strides_for(bsz, m, k, lhs_layout);
                        let rhs_strides = strides_for(bsz, k, n, rhs_layout);
                        let lhs = TensorHandle {
                            shape: vec![bsz, m, k],
                            strides: lhs_strides.clone(),
                        };
                        let rhs = TensorHandle {
                            shape: vec![bsz, k, n],
                            strides: rhs_strides.clone(),
                        };
                        let out = TensorHandle {
                            shape: vec![bsz, m, n],
                            strides: vec![m * n, n, 1],
                        };
                        let plan =
                            matmul_tiling_2d_ref(&hw, 4, &lhs, &rhs, &out, small_config())
                                .expect("planning must succeed");
                        assert_eq!(plan.lhs_normalized, lhs_layout == Layout::Highly);
                        assert_eq!(plan.rhs_normalized, rhs_layout == Layout::Highly);
                        assert_eq!((plan.config.m, plan.config.k, plan.config.n), (m, k, n));
                        let lhs_data = materialize(bsz, m, k, &lhs_strides, &lhs_val);
                        let rhs_data = materialize(bsz, k, n, &rhs_strides, &rhs_val);
                        let got =
                            execute_plan(&plan, &lhs_data, &lhs_strides, &rhs_data, &rhs_strides);
                        let want = naive_matmul(bsz, m, k, n, &lhs_val, &rhs_val);
                        assert_eq!(got, want);
                    }
                }
            }
        }
    }
}

#[test]
fn transposed_operands_set_flags_and_vectorization() {
    let hw = roomy_hw();
    let (m, k, n) = (8usize, 6usize, 5usize);
    let lhs = TensorHandle { shape: vec![1, m, k], strides: strides_for(1, m, k, Layout::Transposed) };
    let rhs = TensorHandle { shape: vec![1, k, n], strides: strides_for(1, k, n, Layout::Transposed) };
    let out = TensorHandle { shape: vec![1, m, n], strides: vec![m * n, n, 1] };
    let plan = matmul_tiling_2d_ref(&hw, 4, &lhs, &rhs, &out, small_config()).unwrap();
    assert!(plan.config.lhs_transposed);
    assert!(plan.config.rhs_transposed);
    // transposed lhs vectorizes over m; transposed rhs stays scalar
    assert_eq!(plan.lhs.vectorization, vectorize(m));
    assert_eq!(plan.lhs.vectorization, 4);
    assert_eq!(plan.rhs.vectorization, 1);
    // the output always vectorizes over n
    assert_eq!(plan.out.vectorization, vectorize(n));
    assert_eq!(plan.out.vectorization, 1);
    // numerically identical to the naive reference as well
    let lhs_val = |_b: usize, i: usize, l: usize| (i * 3 + l) as i64;
    let rhs_val = |_b: usize, l: usize, j: usize| (l * 2 + 9 * j) as i64 - 7;
    let lhs_data = materialize(1, m, k, &lhs.strides, &lhs_val);
    let rhs_data = materialize(1, k, n, &rhs.strides, &rhs_val);
    let got = execute_plan(&plan, &lhs_data, &lhs.strides, &rhs_data, &rhs.strides);
    assert_eq!(got, naive_matmul(1, m, k, n, &lhs_val, &rhs_val));
}

#[test]
fn grid_sizing_and_block_dimensions() {
    let config = Tiling2dConfig {
        block_size_m: 4,
        block_size_k: 2,
        block_size_n: 6,
        tile_size: 2,
        unroll: true,
    };
    // 10 rows in blocks of 4 -> 3; 7 columns in blocks of 6 -> 2; 3 batches
    assert_eq!(
        tiling2d_cube_count(&vec![3, 10, 7], &config),
        CubeCount::Static(3, 2, 3)
    );
    assert_eq!(tiling2d_cube_dim(&config), CubeDim { x: 2, y: 3, z: 1 });
}

#[test]
fn oversized_grid_is_a_capacity_error_and_no_plan() {
    let hw = HardwareProperties {
        max_shared_memory_size: 1 << 20,
        max_cube_count_x: 2,
        max_cube_count_y: u32::MAX,
        max_cube_count_z: u32::MAX,
    };
    let (m, k, n) = (100usize, 4usize, 4usize);
    let lhs = TensorHandle { shape: vec![1, m, k], strides: vec![m * k, k, 1] };
    let rhs = TensorHandle { shape: vec![1, k, n], strides: vec![k * n, n, 1] };
    let out = TensorHandle { shape: vec![1, m, n], strides: vec![m * n, n, 1] };
    let r = matmul_tiling_2d_ref(&hw, 4, &lhs, &rhs, &out, small_config());
    // the error carries the offending grid, and there is no plan to dispatch
    assert_eq!(
        r,
        Err(MatmulLaunchError::Unavailable(MatmulAvailabilityError::CubeCountTooBig(
            CubeCount::Static(50, 2, 1)
        )))
    );
}

#[test]
fn shared_memory_overrun_rejected_before_anything_else() {
    let hw = HardwareProperties {
        max_shared_memory_size: 10,
        // the grid would also be far too large ...
        max_cube_count_x: 1,
        max_cube_count_y: 1,
        max_cube_count_z: 1,
    };
    let (m, k, n) = (100usize, 4usize, 4usize);
    // ... and both operands would also need normalization
    let lhs = TensorHandle { shape: vec![2, m, k], strides: strides_for(2, m, k, Layout::Highly) };
    let rhs = TensorHandle { shape: vec![2, k, n], strides: strides_for(2, k, n, Layout::Highly) };
    let out = TensorHandle { shape: vec![2, m, n], strides: vec![m * n, n, 1] };
    let r = matmul_tiling_2d_ref(&hw, 4, &lhs, &rhs, &out, small_config());
    // yet the configuration is rejected first, before classification,
    // normalization or grid sizing
    assert_eq!(
        r,
        Err(MatmulLaunchError::InvalidConfig(InvalidConfigError::SharedMemoryLimitExceeded {
            elem_size: 4,
            block_size_k: 2,
            block_size_max_mn: 2,
            max_shared_memory_size: 10,
        }))
    );
}

#[test]
fn owned_entry_point_hands_the_output_back() {
    let hw = roomy_hw();
    let (m, k, n) = (4usize, 4usize, 4usize);
    let lhs = TensorHandle { shape: vec![1, m, k], strides: vec![m * k, k, 1] };
    let rhs = TensorHandle { shape: vec![1, k, n], strides: vec![k * n, n, 1] };
    let out = TensorHandle { shape: vec![1, m, n], strides: vec![m * n, n, 1] };
    let (returned, plan) =
        matmul_tiling_2d(&hw, 4, lhs, rhs, out.clone(), small_config()).unwrap();
    assert_eq!(returned, out);
    assert_eq!(plan.cube_count, CubeCount::Static(2, 2, 1));
    assert_eq!(plan.cube_dim, CubeDim { x: 2, y: 2, z: 1 });
}
