//! Tiling-2D launch planner: resource precondition, layout repair,
//! vectorization choice, grid sizing and assembly of the dispatch plan.

use vstd::prelude::*;
use vstd::arithmetic::div_mod::lemma_div_nonincreasing;
use crate::error::{InvalidConfigError, MatmulAvailabilityError, MatmulLaunchError};
use crate::ir::CubeDim;
use crate::layout::{
    classify, contiguous_strides, is_transposed, lemma_contiguous_strides_classify,
    needs_normalization, spec_classify, spec_contiguous_strides, spec_transposed, suffix_prod,
    MatrixLayout,
};

verus! {

/// The execution grid of a dispatch: a fixed 3-tuple of cube counts, or a
/// grid whose extents only the device knows at run time.
#[derive(Debug, PartialEq, Eq, Clone, Copy, Structural)]
pub enum CubeCount {
    Static(u32, u32, u32),
    Dynamic,
}

/// The hardware capabilities the planner consults, injected explicitly so
/// that planning stays deterministic and testable.
#[derive(Debug, PartialEq, Eq, Clone, Copy, Structural)]
pub struct HardwareProperties {
    /// On-chip shared memory per execution unit, in bytes.
    pub max_shared_memory_size: usize,
    /// Per-axis maxima of the execution grid.
    pub max_cube_count_x: u32,
    pub max_cube_count_y: u32,
    pub max_cube_count_z: u32,
}

/// The tuning configuration of the tiled matmul: tile edge lengths of the
/// blocked iteration space and the per-tile edge each thread covers.
#[derive(Debug, PartialEq, Eq, Clone, Copy, Structural)]
pub struct Tiling2dConfig {
    pub block_size_m: usize,
    pub block_size_k: usize,
    pub block_size_n: usize,
    pub tile_size: usize,
    pub unroll: bool,
}

impl Tiling2dConfig {
    /// A usable configuration: no degenerate tile edge, and block edges
    /// representable in the grid's machine word.
    pub open spec fn wf(self) -> bool {
        &&& self.block_size_m >= 1
        &&& self.block_size_k >= 1
        &&& self.block_size_n >= 1
        &&& self.tile_size >= 1
        &&& self.block_size_m <= u32::MAX
        &&& self.block_size_n <= u32::MAX
    }
}

/// The launch-time configuration handed to the compiled kernel: the tuning
/// block sizes, the problem dimensions and the two transposition flags.
#[derive(Debug, PartialEq, Eq, Clone, Copy, Structural)]
pub struct CubeTiling2dConfig {
    pub block_size_m: usize,
    pub block_size_k: usize,
    pub block_size_n: usize,
    pub tile_size: usize,
    pub unroll: bool,
    pub m: usize,
    pub k: usize,
    pub n: usize,
    pub lhs_transposed: bool,
    pub rhs_transposed: bool,
}

impl CubeTiling2dConfig {
    /// Bundle a tuning configuration with the measured problem dimensions
    /// and transposition flags.
    pub fn new(
        config: &Tiling2dConfig,
        m: usize,
        k: usize,
        n: usize,
        lhs_transposed: bool,
        rhs_transposed: bool,
    ) -> (r: Self)
        ensures
            r == (CubeTiling2dConfig {
                block_size_m: config.block_size_m,
                block_size_k: config.block_size_k,
                block_size_n: config.block_size_n,
                tile_size: config.tile_size,
                unroll: config.unroll,
                m,
                k,
                n,
                lhs_transposed,
                rhs_transposed,
            }),
    {
        CubeTiling2dConfig {
            block_size_m: config.block_size_m,
            block_size_k: config.block_size_k,
            block_size_n: config.block_size_n,
            tile_size: config.tile_size,
            unroll: config.unroll,
            m,
            k,
            n,
            lhs_transposed,
            rhs_transposed,
        }
    }
}

/// A tensor operand as the planner sees it: extents and strides of a
/// device buffer. The device pointer itself stays with the compute client.
#[derive(Debug, PartialEq, Eq, Clone)]
pub struct TensorHandle {
    pub shape: Vec<usize>,
    pub strides: Vec<usize>,
}

impl TensorHandle {
    /// Rank of the tensor: at least two, with extra leading batch axes.
    pub open spec fn rank(self) -> int {
        self.shape@.len() as int
    }

    /// A well-formed operand: one stride per axis, rank at least two, no
    /// degenerate axis, and an element count that fits the machine word.
    pub open spec fn wf(self) -> bool {
        &&& self.shape@.len() == self.strides@.len()
        &&& self.shape@.len() >= 2
        &&& (forall|i: int| 0 <= i < self.shape@.len() ==> self.shape@[i] >= 1)
        &&& suffix_prod(self.shape@, 0) <= usize::MAX
    }
}

/// One positional argument of a dispatch: the operand's extents and
/// strides and the vectorization width its accesses use.
#[derive(Debug, PartialEq, Eq, Clone)]
pub struct TensorArg {
    pub shape: Vec<usize>,
    pub strides: Vec<usize>,
    pub vectorization: u8,
}

/// Everything a dispatch needs, assembled and validated by the planner.
///
/// The unchecked launch primitive of the compute client must only ever be
/// fed from a value of this type: the planner has already sized the grid
/// against the hardware and fixed consistent vectorizations, and calling
/// the primitive with anything else is undefined behavior. The two
/// `*_normalized` flags say which operands must first be materialized as
/// fresh contiguous copies, with exactly the strides recorded here.
#[derive(Debug, PartialEq, Eq, Clone)]
pub struct LaunchPlan {
    pub cube_count: CubeCount,
    pub cube_dim: CubeDim,
    pub lhs: TensorArg,
    pub rhs: TensorArg,
    pub out: TensorArg,
    pub config: CubeTiling2dConfig,
    pub lhs_normalized: bool,
    pub rhs_normalized: bool,
}

/// The vectorization width chosen for an axis of length `len`:
/// the first of 4, 2 that divides `len` evenly, else 1.
pub open spec fn spec_vectorize(len: int) -> int {
    if len % 4 == 0 {
        4
    } else if len % 2 == 0 {
        2
    } else {
        1
    }
}

/// Pick the widest supported vectorization width that evenly divides
/// an axis of length `len`, trying 4 first, then 2, falling back to 1.
pub fn vectorize(len: usize) -> (r: u8)
    ensures
        r as int == spec_vectorize(len as int),
{
    if len % 4 == 0 {
        4
    } else if len % 2 == 0 {
        2
    } else {
        1
    }
}

/// Integer division rounding up.
pub open spec fn div_up(a: int, b: int) -> int {
    a / b + if a % b == 0 {
        0int
    } else {
        1int
    }
}

/// Product of the first `i` extents of `s`: the batch volume of a shape
/// is the prefix product of everything outside the two matrix axes.
pub open spec fn prefix_prod(s: Seq<usize>, i: int) -> int
    decreases i,
{
    if i <= 0 || i > s.len() {
        1
    } else {
        prefix_prod(s, i - 1) * s[i - 1]
    }
}

/// With every extent at least one, a prefix product is at least one.
pub proof fn lemma_prefix_prod_pos(s: Seq<usize>, i: int)
    requires
        forall|q: int| 0 <= q < s.len() ==> s[q] >= 1,
    ensures
        prefix_prod(s, i) >= 1,
    decreases (if i > 0 { i } else { 0 }),
{
    if 0 < i <= s.len() {
        lemma_prefix_prod_pos(s, i - 1);
        assert(prefix_prod(s, i - 1) * s[i - 1] >= 1) by (nonlinear_arith)
            requires
                prefix_prod(s, i - 1) >= 1,
                s[i - 1] >= 1,
        ;
    }
}

/// With every extent at least one, prefix products only grow as the
/// prefix grows.
pub proof fn lemma_prefix_prod_monotone(s: Seq<usize>, i: int, j: int)
    requires
        0 <= i <= j <= s.len(),
        forall|q: int| 0 <= q < s.len() ==> s[q] >= 1,
    ensures
        prefix_prod(s, i) <= prefix_prod(s, j),
    decreases j - i,
{
    if i < j {
        lemma_prefix_prod_monotone(s, i, j - 1);
        lemma_prefix_prod_pos(s, j - 1);
        assert(prefix_prod(s, j - 1) * s[j - 1] >= prefix_prod(s, j - 1)) by (nonlinear_arith)
            requires
                prefix_prod(s, j - 1) >= 1,
                s[j - 1] >= 1,
        ;
    }
}

/// The execution grid a tiled matmul of this output shape needs: one cube
/// per `block_size_m` rows and `block_size_n` columns of the output, and
/// one grid layer per batch entry.
pub open spec fn spec_cube_count(out_shape: Seq<usize>, config: Tiling2dConfig) -> CubeCount {
    let rank = out_shape.len() as int;
    CubeCount::Static(
        div_up(out_shape[rank - 2] as int, config.block_size_m as int) as u32,
        div_up(out_shape[rank - 1] as int, config.block_size_n as int) as u32,
        prefix_prod(out_shape, rank - 2) as u32,
    )
}

/// Whether the grid of this output shape fits the machine word of a grid
/// axis; planning demands it, so that the grid the capacity error carries
/// is exact.
pub open spec fn grid_representable(out_shape: Seq<usize>, config: Tiling2dConfig) -> bool {
    let rank = out_shape.len() as int;
    &&& div_up(out_shape[rank - 2] as int, config.block_size_m as int) <= u32::MAX
    &&& div_up(out_shape[rank - 1] as int, config.block_size_n as int) <= u32::MAX
    &&& prefix_prod(out_shape, rank - 2) <= u32::MAX
}

/// Whether some axis of the grid exceeds the hardware's per-axis maximum.
pub open spec fn spec_grid_too_large(
    out_shape: Seq<usize>,
    config: Tiling2dConfig,
    hw: HardwareProperties,
) -> bool {
    let rank = out_shape.len() as int;
    ||| div_up(out_shape[rank - 2] as int, config.block_size_m as int) > hw.max_cube_count_x
    ||| div_up(out_shape[rank - 1] as int, config.block_size_n as int) > hw.max_cube_count_y
    ||| prefix_prod(out_shape, rank - 2) > hw.max_cube_count_z
}

/// Divide, rounding up.
fn div_up_exec(a: usize, b: usize) -> (r: usize)
    requires
        b >= 1,
        div_up(a as int, b as int) <= usize::MAX,
    ensures
        r as int == div_up(a as int, b as int),
{
    let q = a / b;
    if a % b == 0 {
        q
    } else {
        q + 1
    }
}

/// Compute the execution grid for this output shape and configuration.
pub fn tiling2d_cube_count(out_shape: &Vec<usize>, config: &Tiling2dConfig) -> (r: CubeCount)
    requires
        out_shape@.len() >= 2,
        forall|i: int| 0 <= i < out_shape@.len() ==> out_shape@[i] >= 1,
        config.wf(),
        grid_representable(out_shape@, *config),
    ensures
        r == spec_cube_count(out_shape@, *config),
{
    let rank = out_shape.len();
    let cubes_x = div_up_exec(out_shape[rank - 2], config.block_size_m);
    let cubes_y = div_up_exec(out_shape[rank - 1], config.block_size_n);
    let mut num_iter: usize = 1;
    let mut i: usize = 0;
    while i < rank - 2
        invariant
            2 <= rank == out_shape@.len(),
            i <= rank - 2,
            forall|q: int| 0 <= q < out_shape@.len() ==> out_shape@[q] >= 1,
            prefix_prod(out_shape@, rank - 2) <= u32::MAX,
            num_iter == prefix_prod(out_shape@, i as int),
        decreases rank - 2 - i,
    {
        proof {
            lemma_prefix_prod_monotone(out_shape@, i + 1, rank - 2);
            lemma_prefix_prod_pos(out_shape@, i as int);
            assert(prefix_prod(out_shape@, i + 1) == prefix_prod(out_shape@, i as int) * out_shape@[i as int]);
        }
        num_iter = num_iter * out_shape[i];
        i = i + 1;
    }
    CubeCount::Static(cubes_x as u32, cubes_y as u32, num_iter as u32)
}

/// Compute the thread-block dimensions for this configuration: one thread
/// per tile in each block axis, one deep.
pub fn tiling2d_cube_dim(config: &Tiling2dConfig) -> (r: CubeDim)
    requires
        config.wf(),
    ensures
        r == (CubeDim {
            x: (config.block_size_m / config.tile_size) as u32,
            y: (config.block_size_n / config.tile_size) as u32,
            z: 1u32,
        }),
{
    proof {
        lemma_div_nonincreasing(config.block_size_m as int, config.tile_size as int);
        lemma_div_nonincreasing(config.block_size_n as int, config.tile_size as int);
    }
    CubeDim::new(
        (config.block_size_m / config.tile_size) as u32,
        (config.block_size_n / config.tile_size) as u32,
        1,
    )
}

/// Replace an operand's layout by the canonical contiguous one, keeping
/// its extents. The device-side copy that fills the normalized buffer is
/// the compute client's work; this fixes the descriptor that copy must
/// produce, and the plan's `*_normalized` flags say where it is owed.
pub fn normalize_to_contiguous(tensor: &TensorHandle) -> (r: TensorHandle)
    requires
        tensor.wf(),
    ensures
        r.shape@ == tensor.shape@,
        r.strides@ == spec_contiguous_strides(tensor.shape@),
        r.wf(),
        spec_classify(r.strides@) == MatrixLayout::Contiguous,
{
    let strides = contiguous_strides(&tensor.shape);
    proof {
        lemma_contiguous_strides_classify(tensor.shape@);
    }
    TensorHandle { shape: tensor.shape.clone(), strides }
}

/// The strides an operand has once layout repair has run: its own when
/// the fast path can consume them, the canonical contiguous ones when a
/// copy was owed.
pub open spec fn spec_effective_strides(t: TensorHandle) -> Seq<usize> {
    if spec_classify(t.strides@) is HighlyPermuted {
        spec_contiguous_strides(t.shape@)
    } else {
        t.strides@
    }
}

/// Whether an operand reaches the kernel transposed, judged on its
/// post-repair strides.
pub open spec fn spec_effective_transposed(t: TensorHandle) -> bool {
    spec_transposed(spec_classify(spec_effective_strides(t)))
}

/// Whether this configuration would overrun on-chip shared memory: the
/// staged tiles of both operands need
/// `elem_size * block_size_k * max(block_size_m, block_size_n)` bytes.
pub open spec fn spec_shared_memory_exceeded(
    elem_size: usize,
    config: Tiling2dConfig,
    hw: HardwareProperties,
) -> bool {
    elem_size * config.block_size_k * (if config.block_size_m >= config.block_size_n {
        config.block_size_m
    } else {
        config.block_size_n
    }) > hw.max_shared_memory_size
}

/// Shape consistency of one matmul: `lhs` is `(batch.., m, k)`, `rhs` is
/// `(batch.., k, n)`, `out` is `(batch.., m, n)`, all of one rank and one
/// batch extent per axis. The unchecked dispatch boundary is only safe
/// under this consistency, so planning demands it up front.
pub open spec fn shapes_consistent(lhs: TensorHandle, rhs: TensorHandle, out: TensorHandle) -> bool {
    let rank = lhs.rank();
    &&& rhs.rank() == rank
    &&& out.rank() == rank
    &&& rhs.shape@[rank - 2] == lhs.shape@[rank - 1]
    &&& out.shape@[rank - 2] == lhs.shape@[rank - 2]
    &&& out.shape@[rank - 1] == rhs.shape@[rank - 1]
    &&& (forall|i: int| 0 <= i < rank - 2 ==> #[trigger] rhs.shape@[i] == lhs.shape@[i])
    &&& (forall|i: int| 0 <= i < rank - 2 ==> #[trigger] out.shape@[i] == lhs.shape@[i])
}

/// What a planner call must hold of its inputs.
pub open spec fn planner_pre(
    elem_size: usize,
    lhs: TensorHandle,
    rhs: TensorHandle,
    out: TensorHandle,
    config: Tiling2dConfig,
) -> bool {
    &&& elem_size >= 1
    &&& lhs.wf()
    &&& rhs.wf()
    &&& out.wf()
    &&& config.wf()
    &&& shapes_consistent(lhs, rhs, out)
    &&& grid_representable(out.shape@, config)
}

/// Whether one positional dispatch argument carries exactly this operand
/// with this vectorization.
pub open spec fn arg_matches(arg: TensorArg, shape: Seq<usize>, strides: Seq<usize>, vect: int) -> bool {
    &&& arg.shape@ == shape
    &&& arg.strides@ == strides
    &&& arg.vectorization as int == vect
}

/// What the plan of a successful call states, given the operands after
/// layout repair.
pub open spec fn plan_matches(
    plan: LaunchPlan,
    lhs: TensorHandle,
    rhs: TensorHandle,
    out: TensorHandle,
    config: Tiling2dConfig,
) -> bool {
    let rank = lhs.rank();
    let m = lhs.shape@[rank - 2] as int;
    let k = lhs.shape@[rank - 1] as int;
    let n = rhs.shape@[rank - 1] as int;
    let lhs_transposed = spec_effective_transposed(lhs);
    let rhs_transposed = spec_effective_transposed(rhs);
    &&& plan.cube_count == spec_cube_count(out.shape@, config)
    &&& plan.cube_dim == (CubeDim {
        x: (config.block_size_m / config.tile_size) as u32,
        y: (config.block_size_n / config.tile_size) as u32,
        z: 1u32,
    })
    &&& arg_matches(
        plan.lhs,
        lhs.shape@,
        spec_effective_strides(lhs),
        if lhs_transposed {
            spec_vectorize(m)
        } else {
            1
        },
    )
    &&& arg_matches(
        plan.rhs,
        rhs.shape@,
        spec_effective_strides(rhs),
        if rhs_transposed {
            1
        } else {
            spec_vectorize(n)
        },
    )
    &&& arg_matches(plan.out, out.shape@, out.strides@, spec_vectorize(n))
    &&& plan.config == (CubeTiling2dConfig {
        block_size_m: config.block_size_m,
        block_size_k: config.block_size_k,
        block_size_n: config.block_size_n,
        tile_size: config.tile_size,
        unroll: config.unroll,
        m: m as usize,
        k: k as usize,
        n: n as usize,
        lhs_transposed,
        rhs_transposed,
    })
    &&& plan.lhs_normalized == (spec_classify(lhs.strides@) is HighlyPermuted)
    &&& plan.rhs_normalized == (spec_classify(rhs.strides@) is HighlyPermuted)
}

/// The full behavior of one planner call: a shared-memory overrun is
/// rejected before anything else, an oversized grid is a structured
/// capacity error carrying the offending grid and yielding no plan, and
/// otherwise the plan pins every dispatch parameter.
pub open spec fn spec_launch_result(
    hw: HardwareProperties,
    elem_size: usize,
    lhs: TensorHandle,
    rhs: TensorHandle,
    out: TensorHandle,
    config: Tiling2dConfig,
    r: Result<LaunchPlan, MatmulLaunchError>,
) -> bool {
    if spec_shared_memory_exceeded(elem_size, config, hw) {
        r matches Err(e) && e == MatmulLaunchError::InvalidConfig(
            InvalidConfigError::SharedMemoryLimitExceeded {
                elem_size,
                block_size_k: config.block_size_k,
                block_size_max_mn: if config.block_size_m >= config.block_size_n {
                    config.block_size_m
                } else {
                    config.block_size_n
                },
                max_shared_memory_size: hw.max_shared_memory_size,
            },
        )
    } else if spec_grid_too_large(out.shape@, config, hw) {
        r matches Err(e) && e == MatmulLaunchError::Unavailable(
            MatmulAvailabilityError::CubeCountTooBig(spec_cube_count(out.shape@, config)),
        )
    } else {
        r matches Ok(plan) && plan_matches(plan, lhs, rhs, out, config)
    }
}

/// Size the grid, pick vectorizations and assemble the dispatch plan for
/// operands whose layouts are already known to be directly usable.
fn matmul_tiling_2d_ref_no_check(
    hw: &HardwareProperties,
    lhs: &TensorHandle,
    rhs: &TensorHandle,
    out: &TensorHandle,
    config: Tiling2dConfig,
) -> (r: Result<LaunchPlan, MatmulLaunchError>)
    requires
        lhs.wf(),
        rhs.wf(),
        out.wf(),
        config.wf(),
        shapes_consistent(*lhs, *rhs, *out),
        grid_representable(out.shape@, config),
        !(spec_classify(lhs.strides@) is HighlyPermuted),
        !(spec_classify(rhs.strides@) is HighlyPermuted),
    ensures
        spec_grid_too_large(out.shape@, config, *hw) ==> (r matches Err(e) && e
            == MatmulLaunchError::Unavailable(
            MatmulAvailabilityError::CubeCountTooBig(spec_cube_count(out.shape@, config)),
        )),
        !spec_grid_too_large(out.shape@, config, *hw) ==> (r matches Ok(plan)
            && plan_matches(plan, *lhs, *rhs, *out, config) && !plan.lhs_normalized
            && !plan.rhs_normalized),
{
    let rank = lhs.strides.len();

    let m = lhs.shape[rank - 2];
    let k = lhs.shape[rank - 1];
    let n = rhs.shape[rank - 1];

    let lhs_transposed = is_transposed(classify(&lhs.strides));
    let rhs_transposed = is_transposed(classify(&rhs.strides));

    let lhs_vectorization = if lhs_transposed {
        vectorize(m)
    } else {
        1
    };
    let rhs_vectorization = if rhs_transposed {
        1
    } else {
        vectorize(n)
    };
    let out_vectorization = vectorize(n);

    let cube_count = tiling2d_cube_count(&out.shape, &config);
    proof {
        let orank = out.shape@.len() as int;
        vstd::arithmetic::div_mod::lemma_div_pos_is_pos(
            out.shape@[orank - 2] as int,
            config.block_size_m as int,
        );
        vstd::arithmetic::div_mod::lemma_div_pos_is_pos(
            out.shape@[orank - 1] as int,
            config.block_size_n as int,
        );
        lemma_prefix_prod_pos(out.shape@, orank - 2);
    }
    if let CubeCount::Static(x, y, z) = cube_count {
        if x > hw.max_cube_count_x || y > hw.max_cube_count_y || z > hw.max_cube_count_z {
            return Err(
                MatmulLaunchError::Unavailable(MatmulAvailabilityError::CubeCountTooBig(cube_count)),
            );
        }
    }
    let cube_dim = tiling2d_cube_dim(&config);
    let cube_config = CubeTiling2dConfig::new(&config, m, k, n, lhs_transposed, rhs_transposed);

    Ok(
        LaunchPlan {
            cube_count,
            cube_dim,
            lhs: TensorArg {
                shape: lhs.shape.clone(),
                strides: lhs.strides.clone(),
                vectorization: lhs_vectorization,
            },
            rhs: TensorArg {
                shape: rhs.shape.clone(),
                strides: rhs.strides.clone(),
                vectorization: rhs_vectorization,
            },
            out: TensorArg {
                shape: out.shape.clone(),
                strides: out.strides.clone(),
                vectorization: out_vectorization,
            },
            config: cube_config,
            lhs_normalized: false,
            rhs_normalized: false,
        },
    )
}

/// Plan one tiled matmul dispatch: reject a shared-memory overrun before
/// anything else, repair each operand's layout independently, then size
/// the grid and assemble the dispatch plan.
pub fn matmul_tiling_2d_ref(
    hw: &HardwareProperties,
    elem_size: usize,
    lhs: &TensorHandle,
    rhs: &TensorHandle,
    out: &TensorHandle,
    config: Tiling2dConfig,
) -> (r: Result<LaunchPlan, MatmulLaunchError>)
    requires
        planner_pre(elem_size, *lhs, *rhs, *out, config),
    ensures
        spec_launch_result(*hw, elem_size, *lhs, *rhs, *out, config, r),
{
    let mx = if config.block_size_m >= config.block_size_n {
        config.block_size_m
    } else {
        config.block_size_n
    };
    proof {
        assert((elem_size as int) * (config.block_size_k as int) <= (u64::MAX as int) * (
        u64::MAX as int)) by (nonlinear_arith)
            requires
                0 <= elem_size as int <= u64::MAX as int,
                0 <= config.block_size_k as int <= u64::MAX as int,
        ;
    }
    let p1 = (elem_size as u128) * (config.block_size_k as u128);
    let exceeded = if p1 > hw.max_shared_memory_size as u128 {
        proof {
            assert(elem_size * config.block_size_k * mx >= elem_size * config.block_size_k)
                by (nonlinear_arith)
                requires
                    mx >= 1,
                    elem_size * config.block_size_k >= 0,
            ;
        }
        true
    } else {
        proof {
            assert((p1 as int) * (mx as int) <= (u64::MAX as int) * (u64::MAX as int))
                by (nonlinear_arith)
                requires
                    0 <= p1 as int <= u64::MAX as int,
                    0 <= mx as int <= u64::MAX as int,
            ;
        }
        p1 * (mx as u128) > hw.max_shared_memory_size as u128
    };
    if exceeded {
        return Err(
            MatmulLaunchError::InvalidConfig(
                InvalidConfigError::SharedMemoryLimitExceeded {
                    elem_size,
                    block_size_k: config.block_size_k,
                    block_size_max_mn: mx,
                    max_shared_memory_size: hw.max_shared_memory_size,
                },
            ),
        );
    }

    let lhs_ok = !needs_normalization(classify(&lhs.strides));
    let rhs_ok = !needs_normalization(classify(&rhs.strides));

    let result = match (lhs_ok, rhs_ok) {
        (true, true) => matmul_tiling_2d_ref_no_check(hw, lhs, rhs, out, config),
        (true, false) => matmul_tiling_2d_ref_no_check(
            hw,
            lhs,
            &normalize_to_contiguous(rhs),
            out,
            config,
        ),
        (false, true) => matmul_tiling_2d_ref_no_check(
            hw,
            &normalize_to_contiguous(lhs),
            rhs,
            out,
            config,
        ),
        (false, false) => matmul_tiling_2d_ref_no_check(
            hw,
            &normalize_to_contiguous(lhs),
            &normalize_to_contiguous(rhs),
            out,
            config,
        ),
    };
    match result {
        Ok(mut plan) => {
            plan.lhs_normalized = !lhs_ok;
            plan.rhs_normalized = !rhs_ok;
            Ok(plan)
        },
        Err(e) => Err(e),
    }
}

/// Plan one tiled matmul dispatch from owned tensor handles, handing the
/// output handle back for chaining.
pub fn matmul_tiling_2d(
    hw: &HardwareProperties,
    elem_size: usize,
    lhs: TensorHandle,
    rhs: TensorHandle,
    out: TensorHandle,
    config: Tiling2dConfig,
) -> (r: Result<(TensorHandle, LaunchPlan), MatmulLaunchError>)
    requires
        planner_pre(elem_size, lhs, rhs, out, config),
    ensures
        r matches Ok(op) ==> op.0 == out && spec_launch_result(
            *hw,
            elem_size,
            lhs,
            rhs,
            out,
            config,
            Ok(op.1),
        ),
        r matches Err(e) ==> spec_launch_result(
            *hw,
            elem_size,
            lhs,
            rhs,
            out,
            config,
            Err(e),
        ),
{
    match matmul_tiling_2d_ref(hw, elem_size, &lhs, &rhs, &out, config) {
        Ok(plan) => Ok((out, plan)),
        Err(e) => Err(e),
    }
}

} // verus!
