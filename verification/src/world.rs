//! World seeding: lays out a rectangular grid of entities, all starting at
//! the origin, each with a movement target on a centred grid.

use crate::components::{MoveTo, Pos};
use crate::math::{Vec3Fx, COORD_LIMIT};
use crate::store::{EntityStore, StoreError};
use vstd::arithmetic::div_mod::{lemma_mod_bound, lemma_multiply_divide_lt};
use vstd::arithmetic::mul::lemma_mul_inequality;
use vstd::prelude::*;

verus! {

/// Largest grid side the seeding accepts.
pub const GRID_SIDE_LIMIT: usize = 4096;

/// Movement target of grid slot `k` in an `x_max`-wide, `y_max`-deep centred
/// grid: column `k % x_max`, row `k / x_max`, neighbouring slots
/// `2 * half_pitch` thousandths apart, at a height of one unit.
pub open spec fn grid_target(k: int, x_max: int, y_max: int, half_pitch: int) -> Vec3Fx {
    Vec3Fx {
        x: ((2 * (k % x_max) - (x_max - 1)) * half_pitch) as i64,
        y: ((2 * (k / x_max) - (y_max - 1)) * half_pitch) as i64,
        z: 1000,
    }
}

/// A centred grid coordinate scaled by a bounded pitch stays in range.
proof fn lemma_grid_coord_in_range(c: int, side: int, half_pitch: int)
    requires
        0 <= c < side,
        0 <= half_pitch,
        (side - 1) * half_pitch <= COORD_LIMIT as int,
    ensures
        -(COORD_LIMIT as int) <= (2 * c - (side - 1)) * half_pitch <= COORD_LIMIT as int,
{
    let a: int = 2 * c - (side - 1);
    lemma_mul_inequality(a, side - 1, half_pitch);
    lemma_mul_inequality(-(side - 1), a, half_pitch);
    assert((-(side - 1)) * half_pitch == -((side - 1) * half_pitch)) by (nonlinear_arith);
}

/// Creates an `x_max` by `y_max` grid of entities, all at the origin, each
/// with the movement target `grid_target` gives for its slot and the common
/// step-rate `step`. Entities are created in row-major order. Fails exactly
/// when a component kind has not been registered, leaving the store unchanged.
#[verifier::loop_isolation(false)]
pub fn spawn_grid(
    store: &mut EntityStore,
    x_max: usize,
    y_max: usize,
    half_pitch: i64,
    step: i64,
) -> (r: Result<(), StoreError>)
    requires
        old(store).wf(),
        1 <= x_max <= GRID_SIDE_LIMIT,
        1 <= y_max <= GRID_SIDE_LIMIT,
        0 <= half_pitch,
        0 <= step,
        (x_max - 1) * half_pitch <= COORD_LIMIT as int,
        (y_max - 1) * half_pitch <= COORD_LIMIT as int,
    ensures
        final(store).wf(),
        r is Ok <==> old(store).registered(),
        r is Err ==> *final(store) == *old(store) && r == Err::<(), StoreError>(
            StoreError::NotRegistered,
        ),
        r is Ok ==> final(store).spec_len() == old(store).spec_len() + x_max * y_max,
        r is Ok ==> final(store).pos_registered == old(store).pos_registered
            && final(store).target_registered == old(store).target_registered,
        r is Ok ==> forall|j: int|
            0 <= j < old(store).spec_len() ==> final(store).positions@[j] == old(store).positions@[j] && final(store).targets@[j] == old(store).targets@[j],
        r is Ok ==> forall|k: int|
            0 <= k < x_max * y_max ==> (#[trigger] final(store).positions@[old(store).spec_len()
                + k]) == Pos(Vec3Fx { x: 0, y: 0, z: 0 }) && final(store).targets@[old(store).spec_len() + k] == MoveTo(
                grid_target(k, x_max as int, y_max as int, half_pitch as int),
                step,
            ),
{
    if !(store.pos_registered && store.target_registered) {
        return Err(StoreError::NotRegistered);
    }
    proof {
        assert(x_max * y_max <= GRID_SIDE_LIMIT * GRID_SIDE_LIMIT) by (nonlinear_arith)
            requires
                0 < x_max <= GRID_SIDE_LIMIT,
                0 < y_max <= GRID_SIDE_LIMIT,
        ;
    }
    let n: usize = x_max * y_max;
    let base: usize = store.len();
    let mut k: usize = 0;
    while k < n
        invariant
            store.wf(),
            store.pos_registered == old(store).pos_registered,
            store.target_registered == old(store).target_registered,
            k <= n,
            store.spec_len() == base + k,
            forall|j: int|
                0 <= j < base ==> store.positions@[j] == old(store).positions@[j]
                    && store.targets@[j] == old(store).targets@[j],
            forall|j: int|
                0 <= j < k ==> {
                    &&& (#[trigger] store.positions@[base + j]) == Pos(
                        Vec3Fx { x: 0, y: 0, z: 0 },
                    )
                    &&& store.targets@[base + j] == MoveTo(
                        grid_target(j, x_max as int, y_max as int, half_pitch as int),
                        step,
                    )
                },
        decreases n - k,
    {
        let xi: usize = k % x_max;
        let yi: usize = k / x_max;
        proof {
            lemma_mod_bound(k as int, x_max as int);
            lemma_multiply_divide_lt(k as int, x_max as int, y_max as int);
            lemma_grid_coord_in_range(xi as int, x_max as int, half_pitch as int);
            lemma_grid_coord_in_range(yi as int, y_max as int, half_pitch as int);
        }
        let tx: i64 = (2 * (xi as i64) - (x_max as i64 - 1)) * half_pitch;
        let ty: i64 = (2 * (yi as i64) - (y_max as i64 - 1)) * half_pitch;
        let target = Vec3Fx { x: tx, y: ty, z: 1000 };
        let r = store.create(Pos(Vec3Fx { x: 0, y: 0, z: 0 }), MoveTo(target, step));
        match r {
            Ok(_) => {},
            Err(_) => {
                proof {
                    assert(false);
                }
            },
        }
        k = k + 1;
    }
    proof {
        assert(base == old(store).spec_len());
        assert forall|j: int| 0 <= j < x_max * y_max implies (#[trigger] store.positions@[base
            + j]) == Pos(Vec3Fx { x: 0, y: 0, z: 0 }) && store.targets@[base + j] == MoveTo(
            grid_target(j, x_max as int, y_max as int, half_pitch as int),
            step,
        ) by {
            assert(0 <= j < k);
        }
    }
    Ok(())
}

} // verus!
