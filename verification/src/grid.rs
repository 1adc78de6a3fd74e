//! Picking a tile of the staggered grid: the choices on whole numbers.
//!
//! A point is first placed by the bounding boxes of the tiles, which gives
//! an estimate of its row and column. The diamond of a tile reaches into
//! the boxes of its neighbours, so the estimate and its eight neighbours
//! are tested in a fixed order, and the first tile that holds the point is
//! picked.
//!
//! The arithmetic on world coordinates is left to the caller. What it has
//! to compute is stated here in exact arithmetic, on twice the offset of a
//! point from the origin, and it is proved that the centre of every tile
//! picks that tile.

use vstd::arithmetic::div_mod::lemma_fundamental_div_mod_converse;
use vstd::prelude::*;

verus! {

/// `v` brought into `0..len`.
pub open spec fn clamped(v: int, len: int) -> int {
    if v < 0 {
        0
    } else if v >= len {
        len - 1
    } else {
        v
    }
}

/// Brings the index `v` onto a map with `len` rows or columns.
pub fn clamp_index(v: i32, len: i32) -> (r: i32)
    requires
        len > 0,
    ensures
        r == clamped(v as int, len as int),
        0 <= r < len,
{
    if v < 0 {
        0
    } else if v >= len {
        len - 1
    } else {
        v
    }
}

/// Rows with an odd index are shifted right by half a tile.
pub fn is_shifted_row(i: i32) -> (b: bool)
    ensures
        b == (i % 2 != 0),
{
    i % 2 != 0
}

/// The tile `(i, j)` lies on a map of `map_w` columns and `map_h` rows.
pub open spec fn on_map(tile: (int, int), map_w: int, map_h: int) -> bool {
    0 <= tile.0 < map_h && 0 <= tile.1 < map_w
}

/// The estimate and its eight neighbours, in the order in which they are
/// tested.
pub open spec fn neighbourhood(i: int, j: int) -> Seq<(int, int)> {
    seq![
        (i, j),
        (i, j + 1),
        (i + 1, j),
        (i + 1, j + 1),
        (i - 1, j),
        (i - 1, j + 1),
        (i, j - 1),
        (i + 1, j - 1),
        (i - 1, j - 1),
    ]
}

/// The tiles of the neighbourhood that lie on the map, in the same order.
pub open spec fn candidates(i: int, j: int, map_w: int, map_h: int) -> Seq<(int, int)> {
    neighbourhood(i, j).filter(|t: (int, int)| on_map(t, map_w, map_h))
}

/// Every tile of the map that touches the estimate, and the estimate
/// itself, is among the tiles that are tested.
pub proof fn lemma_candidates_cover_neighbours(
    i: int,
    j: int,
    tile: (int, int),
    map_w: int,
    map_h: int,
)
    requires
        on_map(tile, map_w, map_h),
        i - 1 <= tile.0 <= i + 1,
        j - 1 <= tile.1 <= j + 1,
    ensures
        candidates(i, j, map_w, map_h).contains(tile),
{
    let all = neighbourhood(i, j);
    let pred = |t: (int, int)| on_map(t, map_w, map_h);
    let di = tile.0 - i;
    let dj = tile.1 - j;
    let n: int = if di == 0 && dj == 0 {
        0
    } else if di == 0 && dj == 1 {
        1
    } else if di == 1 && dj == 0 {
        2
    } else if di == 1 && dj == 1 {
        3
    } else if di == -1 && dj == 0 {
        4
    } else if di == -1 && dj == 1 {
        5
    } else if di == 0 && dj == -1 {
        6
    } else if di == 1 && dj == -1 {
        7
    } else {
        8
    };
    assert(all[n] == tile);
    all.lemma_filter_contains(pred, n);
}

/// The tiles as pairs of unbounded integers.
pub open spec fn tiles_view(tiles: Seq<(i32, i32)>) -> Seq<(int, int)> {
    Seq::new(tiles.len(), |k: int| (tiles[k].0 as int, tiles[k].1 as int))
}

/// The tiles to test for a point whose estimate is the tile `(i, j)`.
pub fn candidate_tiles(i: i32, j: i32, map_w: i32, map_h: i32) -> (out: Vec<(i32, i32)>)
    requires
        0 <= i < map_h,
        0 <= j < map_w,
    ensures
        tiles_view(out@) == candidates(i as int, j as int, map_w as int, map_h as int),
        out@.len() >= 1,
        out@[0] == (i, j),
        forall|k: int| 0 <= k < out@.len() ==> on_map(#[trigger] tiles_view(out@)[k], map_w as int, map_h as int),
{
    let ghost all = neighbourhood(i as int, j as int);
    let ghost pred = |t: (int, int)| on_map(t, map_w as int, map_h as int);
    let mut out: Vec<(i32, i32)> = Vec::new();
    out.push((i, j));
    proof {
        reveal(Seq::filter);
        assert(all.subrange(0, 1).drop_last() =~= Seq::<(int, int)>::empty());
        assert(all.subrange(0, 1).filter(pred) =~= seq![(i as int, j as int)]);
        assert(tiles_view(out@) =~= all.subrange(0, 1).filter(pred));
    }
    let mut k: usize = 1;
    while k < 9
        invariant
            1 <= k <= 9,
            0 <= i < map_h,
            0 <= j < map_w,
            all == neighbourhood(i as int, j as int),
            pred == (|t: (int, int)| on_map(t, map_w as int, map_h as int)),
            tiles_view(out@) == all.subrange(0, k as int).filter(pred),
            out@.len() >= 1,
            out@[0] == (i, j),
            forall|n: int| 0 <= n < out@.len() ==> on_map(#[trigger] tiles_view(out@)[n], map_w as int, map_h as int),
        decreases 9 - k,
    {
        let di: i8 = if k == 2 || k == 3 || k == 7 {
            1
        } else if k == 4 || k == 5 || k == 8 {
            -1
        } else {
            0
        };
        let dj: i8 = if k == 1 || k == 3 || k == 5 {
            1
        } else if k == 6 || k == 7 || k == 8 {
            -1
        } else {
            0
        };
        let ci: i64 = i as i64 + di as i64;
        let cj: i64 = j as i64 + dj as i64;
        let ghost before = tiles_view(out@);
        proof {
            reveal(Seq::filter);
            assert(all.subrange(0, k + 1).drop_last() =~= all.subrange(0, k as int));
            assert(all.subrange(0, k + 1).last() == (ci as int, cj as int));
        }
        if 0 <= ci && ci < map_h as i64 && 0 <= cj && cj < map_w as i64 {
            out.push((ci as i32, cj as i32));
            assert(tiles_view(out@) =~= before.push((ci as int, cj as int)));
        }
        k += 1;
    }
    assert(all.subrange(0, 9) =~= all);
    out
}

/// Index of the first `true` of `hits` from `from` on, or the length.
pub open spec fn first_hit(hits: Seq<bool>, from: int) -> int
    decreases hits.len() - from,
{
    if from < 0 || from >= hits.len() {
        hits.len() as int
    } else if hits[from] {
        from
    } else {
        first_hit(hits, from + 1)
    }
}

/// The tile that is picked: the first of `tiles` whose test passed, and
/// the estimate where none did.
pub open spec fn picked(estimate: (i32, i32), tiles: Seq<(i32, i32)>, inside: Seq<bool>) -> (
    i32,
    i32,
) {
    let k = first_hit(inside, 0);
    if k < inside.len() && k < tiles.len() {
        tiles[k]
    } else {
        estimate
    }
}

/// Picks the tile of a point. `tiles` are the candidates of its estimate
/// and `inside[k]` says whether the point lies in the diamond of `tiles[k]`.
pub fn pick_tile(estimate: (i32, i32), tiles: &Vec<(i32, i32)>, inside: &Vec<bool>) -> (r: (
    i32,
    i32,
))
    ensures
        r == picked(estimate, tiles@, inside@),
{
    let mut k: usize = 0;
    while k < inside.len() && !inside[k]
        invariant
            k <= inside.len(),
            first_hit(inside@, k as int) == first_hit(inside@, 0),
        decreases inside.len() - k,
    {
        k += 1;
    }
    if k < inside.len() && k < tiles.len() {
        tiles[k]
    } else {
        estimate
    }
}

/// A point that lies in the diamond of its estimate is given its estimate.
pub proof fn lemma_estimate_is_tested_first(
    estimate: (i32, i32),
    tiles: Seq<(i32, i32)>,
    inside: Seq<bool>,
)
    requires
        tiles.len() >= 1,
        inside.len() >= 1,
        tiles[0] == estimate,
        inside[0],
    ensures
        picked(estimate, tiles, inside) == estimate,
{
}

/// The picked tile is the estimate or one of the candidates whose test
/// passed; no candidate before it passed.
pub proof fn lemma_picked_is_first(estimate: (i32, i32), tiles: Seq<(i32, i32)>, inside: Seq<bool>)
    requires
        tiles.len() == inside.len(),
    ensures
        ({
            let k = first_hit(inside, 0);
            &&& 0 <= k <= inside.len()
            &&& forall|n: int| 0 <= n < k ==> !#[trigger] inside[n]
            &&& k < inside.len() ==> inside[k] && picked(estimate, tiles, inside) == tiles[k]
            &&& k == inside.len() ==> picked(estimate, tiles, inside) == estimate
        }),
{
    lemma_first_hit(inside, 0);
}

/// Where exactly one of the tested tiles holds the point, that tile is
/// picked.
pub proof fn lemma_the_only_hit_is_picked(
    estimate: (i32, i32),
    tiles: Seq<(i32, i32)>,
    inside: Seq<bool>,
    k: int,
)
    requires
        tiles.len() == inside.len(),
        0 <= k < inside.len(),
        forall|n: int| 0 <= n < inside.len() ==> (#[trigger] inside[n] <==> n == k),
    ensures
        picked(estimate, tiles, inside) == tiles[k],
{
    lemma_first_hit(inside, 0);
    let first = first_hit(inside, 0);
    if first < k {
        assert(inside[first]);
    } else if first > k {
        assert(!inside[k]);
    }
}

/// The first hit is a hit, and nothing before it is.
pub proof fn lemma_first_hit(hits: Seq<bool>, from: int)
    requires
        0 <= from <= hits.len(),
    ensures
        from <= first_hit(hits, from) <= hits.len(),
        forall|n: int| from <= n < first_hit(hits, from) ==> !#[trigger] hits[n],
        first_hit(hits, from) < hits.len() ==> hits[first_hit(hits, from)],
    decreases hits.len() - from,
{
    if from < hits.len() && !hits[from] {
        lemma_first_hit(hits, from + 1);
    }
}

/// Twice the offset from the origin to the centre of the tile `(i, j)`,
/// for tiles `w` wide and `h` high: rows are half a tile apart, and rows
/// with an odd index are shifted right by half a tile.
pub open spec fn centre(i: int, j: int, w: int, h: int) -> (int, int) {
    (
        2 * j * w + (if i % 2 != 0 {
            w
        } else {
            0
        }) + w,
        i * h + h,
    )
}

pub open spec fn magnitude(x: int) -> int {
    if x < 0 {
        -x
    } else {
        x
    }
}

/// Whether the diamond of `tile` holds the point `p`, given as twice its
/// offset from the origin: the distances from the centre, each taken
/// against half the extent of the tile, add up to at most 1.
pub open spec fn diamond_holds(tile: (int, int), p: (int, int), w: int, h: int) -> bool {
    let c = centre(tile.0, tile.1, w, h);
    magnitude(p.0 - c.0) * h + magnitude(p.1 - c.1) * w <= w * h
}

/// The estimate for the point `p`, given as twice its offset from the
/// origin: the row by the bounding boxes, brought onto the map, and then
/// the column by the boxes of that row.
pub open spec fn estimate(p: (int, int), w: int, h: int, map_w: int, map_h: int) -> (int, int) {
    let i = clamped(p.1 / h, map_h);
    let shift = if i % 2 != 0 {
        w
    } else {
        0
    };
    (i, clamped((p.0 - shift) / (2 * w), map_w))
}

proof fn lemma_scaled(m: int, w: int, h: int)
    requires
        m != 0,
        w > 0,
        h > 0,
    ensures
        magnitude(m * w) * h >= w * h,
        w * h > 0,
{
    assert(w * h > 0) by (nonlinear_arith)
        requires
            w > 0,
            h > 0,
    ;
    if m > 0 {
        assert((m * w) * h >= w * h && m * w >= 0) by (nonlinear_arith)
            requires
                m >= 1,
                w > 0,
                h > 0,
        ;
    } else {
        assert((-(m * w)) * h >= w * h && m * w <= 0) by (nonlinear_arith)
            requires
                m <= -1,
                w > 0,
                h > 0,
        ;
    }
}

/// The centre of a tile lies in the diamond of that tile and of no other.
pub proof fn lemma_centre_is_in_one_diamond(i: int, j: int, tile: (int, int), w: int, h: int)
    requires
        w > 0,
        h > 0,
    ensures
        diamond_holds(tile, centre(i, j, w, h), w, h) <==> tile == (i, j),
{
    let p = centre(i, j, w, h);
    let c = centre(tile.0, tile.1, w, h);
    let a = i - tile.0;
    let b = j - tile.1;
    let s: int = (if i % 2 != 0 {
        1int
    } else {
        0int
    }) - (if tile.0 % 2 != 0 {
        1int
    } else {
        0int
    });
    assert(p.0 - c.0 == (2 * b + s) * w) by (nonlinear_arith)
        requires
            p.0 == 2 * j * w + (if i % 2 != 0 {
                w
            } else {
                0
            }) + w,
            c.0 == 2 * tile.1 * w + (if tile.0 % 2 != 0 {
                w
            } else {
                0
            }) + w,
            b == j - tile.1,
            s == (if i % 2 != 0 {
                1int
            } else {
                0int
            }) - (if tile.0 % 2 != 0 {
                1int
            } else {
                0int
            }),
    ;
    assert(p.1 - c.1 == a * h) by (nonlinear_arith)
        requires
            p.1 == i * h + h,
            c.1 == tile.0 * h + h,
            a == i - tile.0,
    ;
    assert(w * h > 0) by (nonlinear_arith)
        requires
            w > 0,
            h > 0,
    ;
    assert(w * h == h * w) by (nonlinear_arith);
    if a == 0 && b == 0 {
        assert(s == 0);
        assert((2 * b + s) * w == 0);
        assert(a * h == 0);
        assert(magnitude(p.0 - c.0) == 0);
        assert(magnitude(p.1 - c.1) == 0);
        assert(magnitude(p.0 - c.0) * h == 0);
        assert(magnitude(p.1 - c.1) * w == 0);
    } else if a == 0 {
        assert(s == 0);
        lemma_scaled(2 * b + s, w, h);
        assert(a * h == 0);
        assert(p.1 - c.1 == 0);
        let my = magnitude(p.1 - c.1);
        assert(my * w == 0) by (nonlinear_arith)
            requires
                my == 0,
        ;
        assert(magnitude((2 * b) * w) * h >= 2 * (w * h)) by {
            lemma_scaled_twice(b, w, h);
        }
    } else {
        lemma_scaled(a, h, w);
        if 2 * b + s != 0 {
            lemma_scaled(2 * b + s, w, h);
        } else {
            assert(s == 0);
            assert(a % 2 == 0);
            lemma_scaled_twice_or_more(a, h, w);
            assert((2 * b + s) * w == 0);
            assert(p.0 - c.0 == 0);
            let mx = magnitude(p.0 - c.0);
            assert(mx * h == 0) by (nonlinear_arith)
                requires
                    mx == 0,
            ;
        }
    }
}

proof fn lemma_scaled_twice(b: int, w: int, h: int)
    requires
        b != 0,
        w > 0,
        h > 0,
    ensures
        magnitude((2 * b) * w) * h >= 2 * (w * h),
{
    if b > 0 {
        assert(((2 * b) * w) * h >= 2 * (w * h) && (2 * b) * w >= 0) by (nonlinear_arith)
            requires
                b >= 1,
                w > 0,
                h > 0,
        ;
    } else {
        assert((-((2 * b) * w)) * h >= 2 * (w * h) && (2 * b) * w <= 0) by (nonlinear_arith)
            requires
                b <= -1,
                w > 0,
                h > 0,
        ;
    }
}

proof fn lemma_scaled_twice_or_more(a: int, h: int, w: int)
    requires
        a != 0,
        a % 2 == 0,
        w > 0,
        h > 0,
    ensures
        magnitude(a * h) * w >= 2 * (h * w),
{
    if a > 0 {
        assert(a >= 2);
        assert((a * h) * w >= 2 * (h * w) && a * h >= 0) by (nonlinear_arith)
            requires
                a >= 2,
                w > 0,
                h > 0,
        ;
    } else {
        assert(a <= -2);
        assert((-(a * h)) * w >= 2 * (h * w) && a * h <= 0) by (nonlinear_arith)
            requires
                a <= -2,
                w > 0,
                h > 0,
        ;
    }
}

/// The estimate for the centre of a tile on the map is the tile itself or
/// touches it: it lies at most one row below and one column to the right.
pub proof fn lemma_estimate_of_centre(i: int, j: int, w: int, h: int, map_w: int, map_h: int)
    requires
        w > 0,
        h > 0,
        on_map((i, j), map_w, map_h),
    ensures
        ({
            let e = estimate(centre(i, j, w, h), w, h, map_w, map_h);
            &&& on_map(e, map_w, map_h)
            &&& i <= e.0 <= i + 1
            &&& j <= e.1 <= j + 1
        }),
{
    let p = centre(i, j, w, h);
    assert(p.1 == (i + 1) * h + 0) by (nonlinear_arith)
        requires
            p.1 == i * h + h,
    ;
    lemma_fundamental_div_mod_converse(p.1, h, i + 1, 0);
    let row = clamped(p.1 / h, map_h);
    assert(row == if i + 1 < map_h {
        i + 1
    } else {
        i
    });
    let shift = if row % 2 != 0 {
        w
    } else {
        0
    };
    let x = p.0 - shift;
    if (row % 2 != 0) == (i % 2 != 0) {
        assert(x == j * (2 * w) + w) by (nonlinear_arith)
            requires
                x == 2 * j * w + w,
        ;
        lemma_fundamental_div_mod_converse(x, 2 * w, j, w);
    } else if i % 2 != 0 {
        assert(x == (j + 1) * (2 * w) + 0) by (nonlinear_arith)
            requires
                x == 2 * j * w + w + w,
        ;
        lemma_fundamental_div_mod_converse(x, 2 * w, j + 1, 0);
    } else {
        assert(x == j * (2 * w) + 0) by (nonlinear_arith)
            requires
                x == 2 * j * w + w - w,
        ;
        lemma_fundamental_div_mod_converse(x, 2 * w, j, 0);
    }
}

/// In exact arithmetic the centre of every tile of the map picks that
/// tile: whatever list of the candidates of its estimate is tested with
/// the diamonds, the tile is what is picked.
pub proof fn lemma_centre_picks_its_tile(
    i: int,
    j: int,
    w: int,
    h: int,
    map_w: int,
    map_h: int,
    tiles: Seq<(i32, i32)>,
    inside: Seq<bool>,
)
    requires
        w > 0,
        h > 0,
        on_map((i, j), map_w, map_h),
        tiles.len() == inside.len(),
        tiles_view(tiles) == ({
            let e = estimate(centre(i, j, w, h), w, h, map_w, map_h);
            candidates(e.0, e.1, map_w, map_h)
        }),
        forall|k: int|
            0 <= k < tiles.len() ==> #[trigger] inside[k] == diamond_holds(
                tiles_view(tiles)[k],
                centre(i, j, w, h),
                w,
                h,
            ),
    ensures
        ({
            let e = estimate(centre(i, j, w, h), w, h, map_w, map_h);
            let r = picked((e.0 as i32, e.1 as i32), tiles, inside);
            (r.0 as int, r.1 as int) == (i, j)
        }),
{
    let p = centre(i, j, w, h);
    let e = estimate(p, w, h, map_w, map_h);
    lemma_estimate_of_centre(i, j, w, h, map_w, map_h);
    lemma_candidates_cover_neighbours(e.0, e.1, (i, j), map_w, map_h);
    let view = tiles_view(tiles);
    let at = choose|n: int| 0 <= n < view.len() && view[n] == (i, j);
    lemma_centre_is_in_one_diamond(i, j, view[at], w, h);
    assert(inside[at]);
    lemma_first_hit(inside, 0);
    let first = first_hit(inside, 0);
    assert(first <= at) by {
        if first > at {
            assert(!inside[at]);
        }
    }
    assert(inside[first]);
    lemma_centre_is_in_one_diamond(i, j, view[first], w, h);
    assert(view[first] == (tiles[first].0 as int, tiles[first].1 as int));
}

} // verus!
