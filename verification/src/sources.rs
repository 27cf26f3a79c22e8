//! Device-side kernel sources and the launch parameters the algorithms
//! assume. The algorithms themselves are modelled and verified in
//! `kernels`; these strings are their device-side encoding, compiled and
//! launched by the caller that drives an accelerator.

use vstd::prelude::*;

verus! {

/// Name of the kernel function performing the multiplication.
pub const KERNEL_NAME: &'static str = "mul";

/// Tile edge length the tiled implementations stage into local memory.
pub const TILE: usize = 16;

/// How many output elements one thread computes in the coarsened mode.
pub const ELEM_PER_THREAD: usize = 2;

/// Device code for the naive multiplication: one work item per output
/// element, reading straight from global memory.
pub const EASY_SOURCE: &'static str = r#"
void kernel mul(global const float* m1, global const float* m2,
                              global float* m3, const uint n, const uint m, const uint k) {
    uint i = get_global_id(0);
    uint j = get_global_id(1);
    float sum = 0.0f;
    for (uint w = 0; w < k; w++) {
        sum += m1[j * k + w] * m2[w * n + i];
    }
    m3[j * n + i] = sum;
}"#;

/// Device code for the tiled multiplication: each work group stages one
/// tile of each operand into local memory between two barriers, then every
/// thread accumulates the staged products.
pub const MEDIUM_MUL: &'static str = r#"
#define TILE 16

kernel void mul(global float* m1, global float* m2, global float* m3, uint n, uint m, uint k) {

    uint i = get_global_id(0);
    uint j = get_global_id(1);

    uint li = get_local_id(0);
    uint lj = get_local_id(1);

    local float la[TILE][TILE];
    local float lb[TILE][TILE];

    float sum = 0.0f;
    uint iter = k / TILE;
    for (uint w = 0; w < iter; w++) {
        uint trow = TILE * w + li;
        uint tcol = TILE * w + lj;
        la[lj][li] = m1[j * k + trow];
        lb[lj][li] = m2[tcol * n + i];

        barrier(CLK_LOCAL_MEM_FENCE);

        for (int z = 0; z < TILE; z++) {
            sum += la[lj][z] * lb[z][li];
        }

        barrier(CLK_LOCAL_MEM_FENCE);
    }

    m3[j * n + i] = sum;
}"#;

/// Device code for the coarsened multiplication: the same tiling as the
/// tiled mode, but each thread services two output rows, holding one
/// running sum per row.
pub const HARD_MUL: &'static str = r#"
#define TILE 16
#define ELEM_PER_THREAD 2

// TILE / ELEM_PER_THREAD
#define NEW_TILE_SIZE 8

kernel void mul(const global float* m1, const global float* m2, global float* m3, int n, int m, int k) {
    uint li = get_local_id(0);
    uint lj = get_local_id(1);

    uint i = TILE * get_group_id(0) + li;
    uint j = TILE * get_group_id(1) + lj;

    local float la[TILE][TILE];
    local float lb[TILE][TILE];

    float2 acc = (float2)(0.0f);

    uint iter = k / TILE;
    for (uint t = 0; t < iter; t++) {
        uint trow = TILE * t + li;
        uint tcol = TILE * t + lj;

        for (uint w = 0; w < ELEM_PER_THREAD; w++) {
            la[lj + w * NEW_TILE_SIZE][li] = m2[(tcol + w * NEW_TILE_SIZE) * n + i];
            lb[lj + w * NEW_TILE_SIZE][li] = m1[(j + w * NEW_TILE_SIZE) * k + trow];
        }

        barrier(CLK_LOCAL_MEM_FENCE);

        for (uint kk = 0; kk < TILE; kk++) {
            acc += (float2)(la[kk][li]) * (float2)(lb[lj][kk], lb[lj + NEW_TILE_SIZE][kk]);
        }

        barrier(CLK_LOCAL_MEM_FENCE);
    }

    m3[j * n + i] = acc.s0;
    m3[(j + NEW_TILE_SIZE) * n + i] = acc.s1;
}
"#;

} // verus!
