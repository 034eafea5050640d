use vstd::prelude::*;

use crate::fp::dbl_add;
use crate::fp::dbl_div;
use crate::fp::dbl_lt;
use crate::fp::dbl_mul;
use crate::fp::dbl_of_u32;
use crate::fp::dbl_sub;
use crate::fp::spec_dbl_add;
use crate::fp::spec_dbl_div;
use crate::fp::spec_dbl_lt;
use crate::fp::spec_dbl_mul;
use crate::fp::spec_dbl_of_u32;
use crate::fp::spec_dbl_sub;

verus! {

/// The squared magnitude of a complex value, |z|^2 = x*x + y*y, in double
/// arithmetic on bit patterns.
pub open spec fn sq_mag(z: (u64, u64)) -> u64 {
    spec_dbl_add(spec_dbl_mul(z.0, z.0), spec_dbl_mul(z.1, z.1))
}

/// One step of the Julia orbit, z := z*z + c, with the imaginary part
/// computed as 2.0 * x * y + c_im as the rendering loop does.
pub open spec fn julia_step(c: (u64, u64), z: (u64, u64)) -> (u64, u64) {
    (
        (spec_dbl_add(spec_dbl_sub(spec_dbl_mul(z.0, z.0), spec_dbl_mul(z.1, z.1)), c.0)),
        (spec_dbl_add(spec_dbl_mul(spec_dbl_mul(spec_dbl_of_u32(2), z.0), z.1), c.1)),
    )
}

/// The k-th state of the Julia orbit started at z.
pub open spec fn julia_orbit(c: (u64, u64), z: (u64, u64), k: nat) -> (u64, u64)
    decreases k,
{
    if k == 0 {
        z
    } else {
        julia_step(c, julia_orbit(c, z, (k - 1) as nat))
    }
}

/// The count that the Julia iteration reports when it stands at state z with
/// the step counter at iter: counting stops as soon as the squared magnitude
/// is not below the bound, or the counter reaches max.
pub open spec fn julia_count(c: (u64, u64), z: (u64, u64), bound: u64, iter: u32, max: u32) -> u32
    decreases max - iter,
{
    if !spec_dbl_lt(sq_mag(z), bound) || iter >= max {
        iter
    } else {
        julia_count(c, julia_step(c, z), bound, (iter + 1) as u32, max)
    }
}

/// The reported count never leaves [iter, max].
pub proof fn lemma_julia_count_bounds(c: (u64, u64), z: (u64, u64), bound: u64, iter: u32, max: u32)
    requires
        iter <= max,
    ensures
        iter <= julia_count(c, z, bound, iter, max) <= max,
    decreases max - iter,
{
    if spec_dbl_lt(sq_mag(z), bound) && iter < max {
        lemma_julia_count_bounds(c, julia_step(c, z), bound, (iter + 1) as u32, max);
    }
}

/// A start whose squared magnitude already reaches the bound is reported at
/// once: the count stays at the counter's starting value.
pub proof fn lemma_julia_count_escape(c: (u64, u64), z: (u64, u64), bound: u64, iter: u32, max: u32)
    ensures
        !spec_dbl_lt(sq_mag(z), bound) ==> julia_count(c, z, bound, iter, max) == iter,
{
}

/// Shifting the start of an orbit by one step.
pub proof fn lemma_julia_orbit_shift(c: (u64, u64), z: (u64, u64), j: nat)
    ensures
        julia_orbit(c, z, j + 1) == julia_orbit(c, julia_step(c, z), j),
    decreases j,
{
    if j == 0 {
        assert(julia_orbit(c, z, 1) == julia_step(c, julia_orbit(c, z, 0)));
    } else {
        lemma_julia_orbit_shift(c, z, (j - 1) as nat);
        assert(julia_orbit(c, z, j + 1) == julia_step(c, julia_orbit(c, z, j)));
        assert(julia_orbit(c, julia_step(c, z), j) == julia_step(
            c,
            julia_orbit(c, julia_step(c, z), (j - 1) as nat),
        ));
    }
}

/// What the reported count means: a count below max points at the first
/// orbit state whose squared magnitude reaches the bound, every earlier
/// state stays below it, and the count equals max exactly when no state
/// checked before the cap reaches the bound.
pub proof fn lemma_julia_count_characterisation(
    c: (u64, u64),
    z: (u64, u64),
    bound: u64,
    iter: u32,
    max: u32,
)
    requires
        iter <= max,
    ensures
        ({
            let r = julia_count(c, z, bound, iter, max);
            &&& (r < max ==> !spec_dbl_lt(sq_mag(julia_orbit(c, z, (r - iter) as nat)), bound))
            &&& (forall|j: nat|
                j < r - iter ==> spec_dbl_lt(sq_mag(#[trigger] julia_orbit(c, z, j)), bound))
            &&& ((r == max) <==> (forall|j: nat|
                j < max - iter ==> spec_dbl_lt(sq_mag(#[trigger] julia_orbit(c, z, j)), bound)))
        }),
    decreases max - iter,
{
    lemma_julia_count_bounds(c, z, bound, iter, max);
    let r = julia_count(c, z, bound, iter, max);
    if !spec_dbl_lt(sq_mag(z), bound) || iter >= max {
        assert(julia_orbit(c, z, 0) == z);
        if iter < max {
            assert(!(forall|j: nat|
                j < max - iter ==> spec_dbl_lt(sq_mag(#[trigger] julia_orbit(c, z, j)), bound)))
                by {
                assert(0 < max - iter && !spec_dbl_lt(sq_mag(julia_orbit(c, z, 0)), bound));
            }
        }
    } else {
        let z1 = julia_step(c, z);
        lemma_julia_count_characterisation(c, z1, bound, (iter + 1) as u32, max);
        let r1 = julia_count(c, z1, bound, (iter + 1) as u32, max);
        assert(r == r1);
        assert forall|j: nat| j < r - iter implies spec_dbl_lt(
            sq_mag(#[trigger] julia_orbit(c, z, j)),
            bound,
        ) by {
            if j == 0 {
                assert(julia_orbit(c, z, 0) == z);
            } else {
                lemma_julia_orbit_shift(c, z, (j - 1) as nat);
                assert(julia_orbit(c, z1, (j - 1) as nat) == julia_orbit(c, z, j));
            }
        }
        if r < max {
            lemma_julia_count_bounds(c, z1, bound, (iter + 1) as u32, max);
            let d = (r - iter - 1) as nat;
            lemma_julia_orbit_shift(c, z, d);
            assert(d + 1 == (r - iter) as nat);
            assert(julia_orbit(c, z1, (r1 - (iter + 1)) as nat) == julia_orbit(
                c,
                z,
                (r - iter) as nat,
            ));
        }
        if r == max {
        } else {
            assert(!(forall|j: nat|
                j < max - iter ==> spec_dbl_lt(sq_mag(#[trigger] julia_orbit(c, z, j)), bound)))
                by {
                assert(r - iter < max - iter && !spec_dbl_lt(
                    sq_mag(julia_orbit(c, z, (r - iter) as nat)),
                    bound,
                ));
            }
        }
    }
}

/// Counts the Julia escape time of z under the seed c: steps z := z*z + c
/// from a counter of 1, stopping once |z|^2 reaches escape_radius^2 or the
/// counter reaches max_iterations.  A seed and start of exactly zero never
/// escape, so they always report max_iterations.
pub fn julia(c: (u64, u64), z: (u64, u64), escape_radius: u32, max_iterations: u32) -> (r: u32)
    requires
        1 <= escape_radius <= 65535,
        1 <= max_iterations,
    ensures
        r == julia_count(
            c,
            z,
            spec_dbl_of_u32((escape_radius * escape_radius) as u32),
            1,
            max_iterations,
        ),
        1 <= r <= max_iterations,
        c == (0u64, 0u64) && z == (0u64, 0u64) ==> r == max_iterations,
{
    proof {
        assert(1 <= escape_radius * escape_radius <= 0xFFFF_FFFF) by (nonlinear_arith)
            requires
                1 <= escape_radius <= 65535,
        ;
    }
    let er2: u32 = escape_radius * escape_radius;
    let bound: u64 = dbl_of_u32(er2);
    let two: u64 = dbl_of_u32(2);
    let mut iterations: u32 = 1;
    let mut zx: u64 = z.0;
    let mut zy: u64 = z.1;
    loop
        invariant
            1 <= iterations <= max_iterations,
            bound == spec_dbl_of_u32((escape_radius * escape_radius) as u32),
            spec_dbl_lt(0, bound),
            two == spec_dbl_of_u32(2),
            1 <= two <= 0x7FEF_FFFF_FFFF_FFFF,
            julia_count(c, z, bound, 1, max_iterations) == julia_count(
                c,
                (zx, zy),
                bound,
                iterations,
                max_iterations,
            ),
            c == (0u64, 0u64) && z == (0u64, 0u64) ==> zx == 0 && zy == 0,
        ensures
            1 <= iterations <= max_iterations,
            julia_count(c, z, bound, 1, max_iterations) == iterations,
            bound == spec_dbl_of_u32((escape_radius * escape_radius) as u32),
            c == (0u64, 0u64) && z == (0u64, 0u64) ==> iterations == max_iterations,
        decreases max_iterations - iterations,
    {
        let mxx = dbl_mul(zx, zx);
        let myy = dbl_mul(zy, zy);
        let sq = dbl_add(mxx, myy);
        let below = dbl_lt(sq, bound);
        if !(below && iterations < max_iterations) {
            proof {
                assert(sq == sq_mag((zx, zy)));
                assert(julia_count(c, (zx, zy), bound, iterations, max_iterations) == iterations);
            }
            break ;
        }
        let xtemp = dbl_sub(mxx, myy);
        let ghost zc: (u64, u64) = (zx, zy);
        zy = dbl_add(dbl_mul(dbl_mul(two, zx), zy), c.1);
        zx = dbl_add(xtemp, c.0);
        proof {
            assert((zx, zy) == julia_step(c, zc));
            assert(julia_count(c, zc, bound, iterations, max_iterations) == julia_count(
                c,
                (zx, zy),
                bound,
                (iterations + 1) as u32,
                max_iterations,
            ));
        }
        iterations = iterations + 1;
    }
    iterations
}

/// One step of the Mandelbrot recurrence, z := z*z + c, with the imaginary
/// part computed as x*y + y*x, as complex multiplication does.
pub open spec fn mandel_step(c: (u64, u64), z: (u64, u64)) -> (u64, u64) {
    (
        (spec_dbl_add(spec_dbl_sub(spec_dbl_mul(z.0, z.0), spec_dbl_mul(z.1, z.1)), c.0)),
        (spec_dbl_add(spec_dbl_add(spec_dbl_mul(z.0, z.1), spec_dbl_mul(z.1, z.0)), c.1)),
    )
}

/// The count that the Mandelbrot recurrence reports from state z with the
/// counter at iter: the next state is computed first, and the current
/// counter is reported as soon as it escapes, or the counter reaches max.
/// The escape test compares the squared magnitude with 4, the square of the
/// threshold radius 2: the software arithmetic underneath offers no square
/// root, so the magnitude itself is never formed.  Over the reals the two
/// tests agree; in rounded doubles a magnitude computed first and then
/// compared with 2 could differ from this by one count at the boundary.
pub open spec fn mandel_count(c: (u64, u64), z: (u64, u64), iter: u32, max: u32) -> u32
    decreases max - iter,
{
    let zn = mandel_step(c, z);
    if spec_dbl_lt(spec_dbl_of_u32(4), sq_mag(zn)) || iter >= max {
        iter
    } else {
        mandel_count(c, zn, (iter + 1) as u32, max)
    }
}

/// The reported count never leaves [iter, max].
pub proof fn lemma_mandel_count_bounds(c: (u64, u64), z: (u64, u64), iter: u32, max: u32)
    requires
        iter <= max,
    ensures
        iter <= mandel_count(c, z, iter, max) <= max,
    decreases max - iter,
{
    let zn = mandel_step(c, z);
    if !(spec_dbl_lt(spec_dbl_of_u32(4), sq_mag(zn)) || iter >= max) {
        lemma_mandel_count_bounds(c, zn, (iter + 1) as u32, max);
    }
}

/// Counts the Mandelbrot escape time: steps z := z*z + c and reports the
/// current counter as soon as the new state's squared magnitude passes 4 --
/// the escape-radius-2 test on the square, see mandel_count -- or the
/// counter reaches max_iterations.  A seed and start of exactly zero never
/// escape, so they always report max_iterations.
pub fn mandelbrot(c: (u64, u64), z: (u64, u64), iterations: u32, max_iterations: u32) -> (r: u32)
    requires
        1 <= iterations <= max_iterations,
    ensures
        r == mandel_count(c, z, iterations, max_iterations),
        iterations <= r <= max_iterations,
        c == (0u64, 0u64) && z == (0u64, 0u64) ==> r == max_iterations,
{
    let four: u64 = dbl_of_u32(4);
    let mut it: u32 = iterations;
    let mut zx: u64 = z.0;
    let mut zy: u64 = z.1;
    loop
        invariant
            iterations <= it <= max_iterations,
            four == spec_dbl_of_u32(4),
            !spec_dbl_lt(four, 0),
            mandel_count(c, z, iterations, max_iterations) == mandel_count(
                c,
                (zx, zy),
                it,
                max_iterations,
            ),
            c == (0u64, 0u64) && z == (0u64, 0u64) ==> zx == 0 && zy == 0,
        ensures
            iterations <= it <= max_iterations,
            mandel_count(c, z, iterations, max_iterations) == it,
            c == (0u64, 0u64) && z == (0u64, 0u64) ==> it == max_iterations,
        decreases max_iterations - it,
    {
        let mxx = dbl_mul(zx, zx);
        let myy = dbl_mul(zy, zy);
        let mxy = dbl_mul(zx, zy);
        let myx = dbl_mul(zy, zx);
        let nzx = dbl_add(dbl_sub(mxx, myy), c.0);
        let nzy = dbl_add(dbl_add(mxy, myx), c.1);
        let sq = dbl_add(dbl_mul(nzx, nzx), dbl_mul(nzy, nzy));
        proof {
            assert((nzx, nzy) == mandel_step(c, (zx, zy)));
            assert(sq == sq_mag((nzx, nzy)));
        }
        if dbl_lt(four, sq) || it >= max_iterations {
            proof {
                assert(mandel_count(c, (zx, zy), it, max_iterations) == it);
            }
            break ;
        }
        proof {
            assert(mandel_count(c, (zx, zy), it, max_iterations) == mandel_count(
                c,
                (nzx, nzy),
                (it + 1) as u32,
                max_iterations,
            ));
        }
        it = it + 1;
        zx = nzx;
        zy = nzy;
    }
    it
}

/// The plane coordinate of a pixel index: index * (hi - lo) / size + lo, in
/// double arithmetic on bit patterns, exactly as the window mapping states
/// it.
pub open spec fn plane_coord(index: u32, size: u32, lo: u64, hi: u64) -> u64 {
    spec_dbl_add(
        spec_dbl_div(
            spec_dbl_mul(spec_dbl_of_u32(index), spec_dbl_sub(hi, lo)),
            spec_dbl_of_u32(size),
        ),
        lo,
    )
}

/// Maps a pixel index along one axis into the plane window [lo, hi].  Pixel
/// index 0 lands exactly on lo whenever the window width hi - lo comes out
/// as a positive finite double and lo itself is finite and not -0.
pub fn pixel_to_plane(index: u32, size: u32, lo: u64, hi: u64) -> (r: u64)
    ensures
        r == plane_coord(index, size, lo, hi),
        index == 0 && size >= 1 && 1 <= spec_dbl_sub(hi, lo) <= 0x7FEF_FFFF_FFFF_FFFF && (lo
            & 0x7FF0_0000_0000_0000) != 0x7FF0_0000_0000_0000 && lo != 0x8000_0000_0000_0000
            ==> r == lo,
{
    dbl_add(dbl_div(dbl_mul(dbl_of_u32(index), dbl_sub(hi, lo)), dbl_of_u32(size)), lo)
}

} // verus!
