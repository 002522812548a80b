//! Grid overlay: which grid lines to draw along one axis.
use vstd::prelude::*;

verus! {

/// World coordinates of the grid lines along one axis when the visible
/// area spans tiles `first ..= last`: every multiple of `tile_size` from
/// one tile before `first` to one tile after `last`.
pub open spec fn grid_lines_spec(first: int, last: int, tile_size: int) -> Seq<i64> {
    Seq::new(
        if last + 2 >= first - 1 { (last - first + 3) as nat } else { 0 },
        |i: int| ((first - 1 + i) * tile_size) as i64,
    )
}

/// Grid line positions, in world pixels, for the tile range
/// `first ..= last` widened by one tile on each side.
pub fn grid_lines(first: i32, last: i32, tile_size: u32) -> (r: Vec<i64>)
    requires
        first > i32::MIN,
        last < i32::MAX,
    ensures
        r@ == grid_lines_spec(first as int, last as int, tile_size as int),
        forall|i: int| 0 <= i < r@.len() ==> r@[i] as int == (first - 1 + i) * tile_size,
{
    let mut out: Vec<i64> = Vec::new();
    let lo: i64 = first as i64 - 1;
    let hi: i64 = last as i64 + 1;
    let mut k: i64 = lo;
    while k <= hi
        invariant
            first > i32::MIN,
            last < i32::MAX,
            lo == first - 1,
            hi == last + 1,
            lo <= k,
            k <= hi + 1 || k == lo,
            out@.len() == k - lo,
            forall|i: int| 0 <= i < out@.len() ==> out@[i] as int == (first - 1 + i) * tile_size,
        decreases hi + 1 - k,
    {
        let ghost ki = k as int;
        let ghost ts = tile_size as int;
        assert(-2147483648int * 4294967295int <= ki * ts <= 2147483648int * 4294967295int) by (nonlinear_arith)
            requires -2147483648int <= ki <= 2147483648int, 0 <= ts <= 4294967295int;
        out.push(k * tile_size as i64);
        k = k + 1;
    }
    assert(out@ =~= grid_lines_spec(first as int, last as int, tile_size as int));
    out
}

} // verus!
