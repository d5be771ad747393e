//! Spatial area-of-interest: grid zones, neighbouring zones, the candidate
//! pairs for proximity broadcasts, and the `/move` command.
use vstd::prelude::*;
use std::collections::HashMap;
use crate::text::{chars_of, next_word, range_equals, words, words_from};

verus! {

/// Generic bucketing of clients by cell key.
///
/// `cells[i]` is the key of client `i`'s cell; `probes[a]` lists the keys of
/// the cells that client `a` looks into.
/// Clients `j < n` whose cell is `key`, in increasing order.
pub open spec fn cell_members(cells: Seq<u128>, key: u128, n: int) -> Seq<usize>
    decreases n,
{
    if n <= 0 {
        Seq::empty()
    } else {
        cell_members(cells, key, n - 1) + (if cells[n - 1] == key {
            seq![(n - 1) as usize]
        } else {
            Seq::empty()
        })
    }
}

/// Pairs `(a, b)` for the members `b` other than `a`, in order.
pub open spec fn pairs_with(a: usize, members: Seq<usize>) -> Seq<(usize, usize)>
    decreases members.len(),
{
    if members.len() == 0 {
        Seq::empty()
    } else {
        pairs_with(a, members.drop_last()) + (if members.last() != a {
            seq![(a, members.last())]
        } else {
            Seq::empty()
        })
    }
}

/// Pairs of client `a` with the members of its first `k` probed cells.
pub open spec fn probe_pairs(cells: Seq<u128>, a: usize, probe: Seq<u128>, k: int) -> Seq<(usize, usize)>
    decreases k,
{
    if k <= 0 {
        Seq::empty()
    } else {
        probe_pairs(cells, a, probe, k - 1) + pairs_with(a, cell_members(cells, probe[k - 1], cells.len() as int))
    }
}

/// Pairs of the first `a` clients with the members of the cells they probe.
pub open spec fn interest_pairs(cells: Seq<u128>, probes: Seq<Seq<u128>>, a: int) -> Seq<(usize, usize)>
    decreases a,
{
    if a <= 0 {
        Seq::empty()
    } else {
        interest_pairs(cells, probes, a - 1) + probe_pairs(
            cells,
            (a - 1) as usize,
            probes[a - 1],
            probes[a - 1].len() as int,
        )
    }
}

/// For each client `a` in order, each key it probes in order, and each client
/// `b != a` in that cell in increasing order: the pair `(a, b)`.
pub fn pairs_by_cell(cells: &Vec<u128>, probes: &Vec<Vec<u128>>) -> (out: Vec<(usize, usize)>)
    requires
        probes@.len() == cells@.len(),
    ensures
        out@ == interest_pairs(cells@, probes@.map_values(|v: Vec<u128>| v@), cells@.len() as int),
{
    let n = cells.len();
    let ghost ps = probes@.map_values(|v: Vec<u128>| v@);
    let mut buckets: HashMap<u128, Vec<usize>> = HashMap::new();
    let mut i: usize = 0;
    while i < n
        invariant
            i <= n == cells@.len(),
            forall|k: u128| #[trigger]
                cell_members(cells@, k, i as int) == (if buckets@.contains_key(k) {
                    buckets@[k]@
                } else {
                    Seq::<usize>::empty()
                }),
        decreases n - i,
    {
        let key = cells[i];
        let mut members = match buckets.remove(&key) {
            Some(v) => v,
            None => Vec::new(),
        };
        members.push(i);
        buckets.insert(key, members);
        assert forall|k: u128| #[trigger]
            cell_members(cells@, k, i + 1) == (if buckets@.contains_key(k) {
                buckets@[k]@
            } else {
                Seq::<usize>::empty()
            }) by {
            assert(cell_members(cells@, k, i + 1) == cell_members(cells@, k, i as int) + (if cells@[i as int] == k {
                seq![i]
            } else {
                Seq::empty()
            }));
            if k == key {
                assert(cell_members(cells@, k, i + 1) =~= buckets@[k]@);
            } else {
                assert(cell_members(cells@, k, i + 1) =~= cell_members(cells@, k, i as int));
            }
        }
        i = i + 1;
    }
    let mut out: Vec<(usize, usize)> = Vec::new();
    let mut a: usize = 0;
    while a < n
        invariant
            a <= n == cells@.len() == probes@.len(),
            ps == probes@.map_values(|v: Vec<u128>| v@),
            out@ == interest_pairs(cells@, ps, a as int),
            forall|k: u128| #[trigger]
                cell_members(cells@, k, n as int) == (if buckets@.contains_key(k) {
                    buckets@[k]@
                } else {
                    Seq::<usize>::empty()
                }),
        decreases n - a,
    {
        let probe = &probes[a];
        assert(ps[a as int] == probe@);
        let ghost base = interest_pairs(cells@, ps, a as int);
        let mut k: usize = 0;
        while k < probe.len()
            invariant
                a < n == cells@.len() == probes@.len(),
                probe@ == ps[a as int],
                k <= probe@.len(),
                out@ == base + probe_pairs(cells@, a, probe@, k as int),
                forall|key: u128| #[trigger]
                    cell_members(cells@, key, n as int) == (if buckets@.contains_key(key) {
                        buckets@[key]@
                    } else {
                        Seq::<usize>::empty()
                    }),
            decreases probe@.len() - k,
        {
            let key = probe[k];
            let ghost before = out@;
            assert(cell_members(cells@, key, n as int) == (if buckets@.contains_key(key) {
                buckets@[key]@
            } else {
                Seq::<usize>::empty()
            }));
            match buckets.get(&key) {
                Some(members) => {
                    let mut j: usize = 0;
                    while j < members.len()
                        invariant
                            j <= members@.len(),
                            out@ == before + pairs_with(a, members@.take(j as int)),
                        decreases members@.len() - j,
                    {
                        let b = members[j];
                        assert(members@.take(j + 1).drop_last() =~= members@.take(j as int));
                        assert(members@.take(j + 1).last() == b);
                        if b != a {
                            out.push((a, b));
                        }
                        assert(out@ =~= before + pairs_with(a, members@.take(j + 1)));
                        j = j + 1;
                    }
                    assert(members@.take(members@.len() as int) =~= members@);
                },
                None => {
                    assert(pairs_with(a, Seq::<usize>::empty()) =~= Seq::<(usize, usize)>::empty());
                    assert(out@ =~= before + pairs_with(a, Seq::<usize>::empty()));
                },
            }
            assert(out@ =~= base + probe_pairs(cells@, a, probe@, k + 1));
            k = k + 1;
        }
        assert(out@ =~= interest_pairs(cells@, ps, a + 1));
        a = a + 1;
    }
    out
}

/// Zone of the 2D grid (XY plane; the flat 3D plugin uses it for the XZ plane).
#[derive(Clone, Copy, Debug, PartialEq, Eq, Hash, Structural)]
pub struct SpatialZone2D {
    pub zone_x: i32,
    pub zone_y: i32,
}

/// Zone of the volumetric 3D grid.
#[derive(Clone, Copy, Debug, PartialEq, Eq, Hash, Structural)]
pub struct SpatialZone3D {
    pub zone_x: i32,
    pub zone_y: i32,
    pub zone_z: i32,
}

impl Default for SpatialZone2D {
    fn default() -> (z: Self)
        ensures
            z == (SpatialZone2D { zone_x: 0, zone_y: 0 }),
    {
        SpatialZone2D { zone_x: 0, zone_y: 0 }
    }
}

impl Default for SpatialZone3D {
    fn default() -> (z: Self)
        ensures
            z == (SpatialZone3D { zone_x: 0, zone_y: 0, zone_z: 0 }),
    {
        SpatialZone3D { zone_x: 0, zone_y: 0, zone_z: 0 }
    }
}

/// Whether every coordinate has a neighbour on both sides within `i32`.
pub open spec fn inner_2d(z: SpatialZone2D) -> bool {
    i32::MIN < z.zone_x < i32::MAX && i32::MIN < z.zone_y < i32::MAX
}

/// Whether every coordinate has a neighbour on both sides within `i32`.
pub open spec fn inner_3d(z: SpatialZone3D) -> bool {
    &&& i32::MIN < z.zone_x < i32::MAX
    &&& i32::MIN < z.zone_y < i32::MAX
    &&& i32::MIN < z.zone_z < i32::MAX
}

/// The `i`-th zone of the 3x3 block around `z` (`i < 9`), x varying fastest.
pub open spec fn neighbor_2d(z: SpatialZone2D, i: int) -> SpatialZone2D {
    SpatialZone2D { zone_x: (z.zone_x + i % 3 - 1) as i32, zone_y: (z.zone_y + i / 3 - 1) as i32 }
}

/// The `i`-th zone of the 3x3x3 block around `z` (`i < 27`), x fastest, z slowest.
pub open spec fn neighbor_3d(z: SpatialZone3D, i: int) -> SpatialZone3D {
    SpatialZone3D {
        zone_x: (z.zone_x + i % 3 - 1) as i32,
        zone_y: (z.zone_y + (i / 3) % 3 - 1) as i32,
        zone_z: (z.zone_z + i / 9 - 1) as i32,
    }
}

impl SpatialZone2D {
    /// The zone itself and its eight neighbours (dy outer, dx inner, each from -1 to 1).
    pub fn neighbors(&self) -> (r: [SpatialZone2D; 9])
        requires
            inner_2d(*self),
        ensures
            forall|i: int| 0 <= i < 9 ==> #[trigger] r@[i] == neighbor_2d(*self, i),
    {
        let x = self.zone_x;
        let y = self.zone_y;
        let r = [
            SpatialZone2D { zone_x: x - 1, zone_y: y - 1 },
            SpatialZone2D { zone_x: x, zone_y: y - 1 },
            SpatialZone2D { zone_x: x + 1, zone_y: y - 1 },
            SpatialZone2D { zone_x: x - 1, zone_y: y },
            SpatialZone2D { zone_x: x, zone_y: y },
            SpatialZone2D { zone_x: x + 1, zone_y: y },
            SpatialZone2D { zone_x: x - 1, zone_y: y + 1 },
            SpatialZone2D { zone_x: x, zone_y: y + 1 },
            SpatialZone2D { zone_x: x + 1, zone_y: y + 1 },
        ];
        assert forall|i: int| 0 <= i < 9 implies #[trigger] r@[i] == neighbor_2d(*self, i) by {
            assert(0 <= i < 9);
        }
        r
    }

    /// Moves to `new_zone`; reports whether the zone changed.
    pub fn update(&mut self, new_zone: SpatialZone2D) -> (changed: bool)
        ensures
            changed == (new_zone != *old(self)),
            *final(self) == new_zone,
    {
        let changed = new_zone.zone_x != self.zone_x || new_zone.zone_y != self.zone_y;
        *self = new_zone;
        changed
    }
}

impl SpatialZone3D {
    /// The zone itself and its 26 neighbours (dz outer, then dy, dx inner, each from -1 to 1).
    pub fn neighbors(&self) -> (r: [SpatialZone3D; 27])
        requires
            inner_3d(*self),
        ensures
            forall|i: int| 0 <= i < 27 ==> #[trigger] r@[i] == neighbor_3d(*self, i),
    {
        let x = self.zone_x;
        let y = self.zone_y;
        let z = self.zone_z;
        let r = [
            SpatialZone3D { zone_x: x - 1, zone_y: y - 1, zone_z: z - 1 },
            SpatialZone3D { zone_x: x, zone_y: y - 1, zone_z: z - 1 },
            SpatialZone3D { zone_x: x + 1, zone_y: y - 1, zone_z: z - 1 },
            SpatialZone3D { zone_x: x - 1, zone_y: y, zone_z: z - 1 },
            SpatialZone3D { zone_x: x, zone_y: y, zone_z: z - 1 },
            SpatialZone3D { zone_x: x + 1, zone_y: y, zone_z: z - 1 },
            SpatialZone3D { zone_x: x - 1, zone_y: y + 1, zone_z: z - 1 },
            SpatialZone3D { zone_x: x, zone_y: y + 1, zone_z: z - 1 },
            SpatialZone3D { zone_x: x + 1, zone_y: y + 1, zone_z: z - 1 },
            SpatialZone3D { zone_x: x - 1, zone_y: y - 1, zone_z: z },
            SpatialZone3D { zone_x: x, zone_y: y - 1, zone_z: z },
            SpatialZone3D { zone_x: x + 1, zone_y: y - 1, zone_z: z },
            SpatialZone3D { zone_x: x - 1, zone_y: y, zone_z: z },
            SpatialZone3D { zone_x: x, zone_y: y, zone_z: z },
            SpatialZone3D { zone_x: x + 1, zone_y: y, zone_z: z },
            SpatialZone3D { zone_x: x - 1, zone_y: y + 1, zone_z: z },
            SpatialZone3D { zone_x: x, zone_y: y + 1, zone_z: z },
            SpatialZone3D { zone_x: x + 1, zone_y: y + 1, zone_z: z },
            SpatialZone3D { zone_x: x - 1, zone_y: y - 1, zone_z: z + 1 },
            SpatialZone3D { zone_x: x, zone_y: y - 1, zone_z: z + 1 },
            SpatialZone3D { zone_x: x + 1, zone_y: y - 1, zone_z: z + 1 },
            SpatialZone3D { zone_x: x - 1, zone_y: y, zone_z: z + 1 },
            SpatialZone3D { zone_x: x, zone_y: y, zone_z: z + 1 },
            SpatialZone3D { zone_x: x + 1, zone_y: y, zone_z: z + 1 },
            SpatialZone3D { zone_x: x - 1, zone_y: y + 1, zone_z: z + 1 },
            SpatialZone3D { zone_x: x, zone_y: y + 1, zone_z: z + 1 },
            SpatialZone3D { zone_x: x + 1, zone_y: y + 1, zone_z: z + 1 },
        ];
        assert forall|i: int| 0 <= i < 27 implies #[trigger] r@[i] == neighbor_3d(*self, i) by {
            assert(0 <= i < 27);
        }
        r
    }

    /// Moves to `new_zone`; reports whether the zone changed.
    pub fn update(&mut self, new_zone: SpatialZone3D) -> (changed: bool)
        ensures
            changed == (new_zone != *old(self)),
            *final(self) == new_zone,
    {
        let changed = new_zone.zone_x != self.zone_x || new_zone.zone_y != self.zone_y
            || new_zone.zone_z != self.zone_z;
        *self = new_zone;
        changed
    }
}

/// Offset that makes every searched zone coordinate non-negative in a key.
pub open spec fn key_offset() -> int {
    0x100_0000_0000
}

/// Whether a zone coordinate (possibly just outside `i32`) can be keyed.
pub open spec fn keyable(c: int) -> bool {
    -key_offset() <= c < key_offset()
}

/// The cell key of the 2D zone at `(x, y)`.
pub open spec fn cell_key_2d(x: int, y: int) -> u128 {
    ((x + key_offset()) * 0x1_0000_0000_0000_0000 + (y + key_offset())) as u128
}

/// The cell key of the 3D zone at `(x, y, z)`.
pub open spec fn cell_key_3d(x: int, y: int, z: int) -> u128 {
    ((x + key_offset()) * 0x10_0000_0000_0000_0000_0000 + (y + key_offset()) * 0x400_0000_0000 + (z
        + key_offset())) as u128
}

/// Distinct zones have distinct keys.
pub proof fn lemma_cell_key_2d_injective(x1: int, y1: int, x2: int, y2: int)
    requires
        keyable(x1),
        keyable(y1),
        keyable(x2),
        keyable(y2),
    ensures
        cell_key_2d(x1, y1) == cell_key_2d(x2, y2) <==> (x1 == x2 && y1 == y2),
{
}

/// Distinct zones have distinct keys.
pub proof fn lemma_cell_key_3d_injective(x1: int, y1: int, z1: int, x2: int, y2: int, z2: int)
    requires
        keyable(x1),
        keyable(y1),
        keyable(z1),
        keyable(x2),
        keyable(y2),
        keyable(z2),
    ensures
        cell_key_3d(x1, y1, z1) == cell_key_3d(x2, y2, z2) <==> (x1 == x2 && y1 == y2 && z1 == z2),
{
    let d: int = 0x400_0000_0000;
    let c = key_offset();
    let h1 = (x1 + c) * d + (y1 + c);
    let h2 = (x2 + c) * d + (y2 + c);
    let k1 = h1 * d + (z1 + c);
    let k2 = h2 * d + (z2 + c);
    assert(k1 == (x1 + c) * 0x10_0000_0000_0000_0000_0000 + (y1 + c) * 0x400_0000_0000 + (z1 + c)) by (nonlinear_arith)
        requires
            d == 0x400_0000_0000,
            h1 == (x1 + c) * d + (y1 + c),
            k1 == h1 * d + (z1 + c),
    ;
    assert(k2 == (x2 + c) * 0x10_0000_0000_0000_0000_0000 + (y2 + c) * 0x400_0000_0000 + (z2 + c)) by (nonlinear_arith)
        requires
            d == 0x400_0000_0000,
            h2 == (x2 + c) * d + (y2 + c),
            k2 == h2 * d + (z2 + c),
    ;
    assert(0 <= h1 < d * d && 0 <= h2 < d * d) by (nonlinear_arith)
        requires
            d == 0x400_0000_0000,
            0 <= x1 + c < d,
            0 <= y1 + c < d,
            0 <= x2 + c < d,
            0 <= y2 + c < d,
            h1 == (x1 + c) * d + (y1 + c),
            h2 == (x2 + c) * d + (y2 + c),
    ;
    assert(0 <= k1 < 0x1_0000_0000_0000_0000_0000_0000_0000_0000 && 0 <= k2 < 0x1_0000_0000_0000_0000_0000_0000_0000_0000)
        by (nonlinear_arith)
        requires
            d == 0x400_0000_0000,
            0 <= h1 < d * d,
            0 <= h2 < d * d,
            0 <= z1 + c < d,
            0 <= z2 + c < d,
            k1 == h1 * d + (z1 + c),
            k2 == h2 * d + (z2 + c),
    ;
    if cell_key_3d(x1, y1, z1) == cell_key_3d(x2, y2, z2) {
        assert(k1 == k2);
        vstd::arithmetic::div_mod::lemma_fundamental_div_mod_converse(k1, d, h1, z1 + c);
        vstd::arithmetic::div_mod::lemma_fundamental_div_mod_converse(k2, d, h2, z2 + c);
        vstd::arithmetic::div_mod::lemma_fundamental_div_mod_converse(h1, d, x1 + c, y1 + c);
        vstd::arithmetic::div_mod::lemma_fundamental_div_mod_converse(h2, d, x2 + c, y2 + c);
    }
}

fn key_2d(x: i64, y: i64) -> (k: u128)
    requires
        keyable(x as int),
        keyable(y as int),
    ensures
        k == cell_key_2d(x as int, y as int),
{
    let a = (x + 0x100_0000_0000) as u128;
    let b = (y + 0x100_0000_0000) as u128;
    a * 0x1_0000_0000_0000_0000 + b
}

fn key_3d(x: i64, y: i64, z: i64) -> (k: u128)
    requires
        keyable(x as int),
        keyable(y as int),
        keyable(z as int),
    ensures
        k == cell_key_3d(x as int, y as int, z as int),
{
    let a = (x + 0x100_0000_0000) as u128;
    let b = (y + 0x100_0000_0000) as u128;
    let c = (z + 0x100_0000_0000) as u128;
    a * 0x10_0000_0000_0000_0000_0000 + b * 0x400_0000_0000 + c
}

/// Number of zones along one axis of the block searched around a client.
pub open spec fn block_width(reach: u16) -> int {
    2 * reach + 1
}

/// Keys of the square of zones at most `reach` zones away from `z` along each
/// axis, y outer and x inner, each from `-reach` to `reach`.
pub open spec fn block_2d(z: SpatialZone2D, reach: u16) -> Seq<u128> {
    let w = block_width(reach);
    Seq::new((w * w) as nat, |t: int| cell_key_2d(z.zone_x + t % w - reach, z.zone_y + t / w - reach))
}

/// Keys of the cube of zones at most `reach` zones away from `z` along each
/// axis, z outer, then y, x inner, each from `-reach` to `reach`.
pub open spec fn block_3d(z: SpatialZone3D, reach: u16) -> Seq<u128> {
    let w = block_width(reach);
    Seq::new(
        (w * w * w) as nat,
        |t: int| cell_key_3d(z.zone_x + t % w - reach, z.zone_y + (t / w) % w - reach, z.zone_z + (t / w) / w - reach),
    )
}

/// Keys of the clients' zones.
pub open spec fn zone_cells_2d(zs: Seq<SpatialZone2D>) -> Seq<u128> {
    Seq::new(zs.len(), |i: int| cell_key_2d(zs[i].zone_x as int, zs[i].zone_y as int))
}

/// Keys of the blocks the clients look into.
pub open spec fn zone_probes_2d(zs: Seq<SpatialZone2D>, reach: u16) -> Seq<Seq<u128>> {
    Seq::new(zs.len(), |a: int| block_2d(zs[a], reach))
}

/// Candidate pairs `(a, b)` for a 2D proximity broadcast: for each client `a`,
/// each zone of its block, and each other client `b` in that zone.
pub open spec fn candidates_2d(zs: Seq<SpatialZone2D>, reach: u16) -> Seq<(usize, usize)> {
    interest_pairs(zone_cells_2d(zs), zone_probes_2d(zs, reach), zs.len() as int)
}

/// Keys of the clients' zones.
pub open spec fn zone_cells_3d(zs: Seq<SpatialZone3D>) -> Seq<u128> {
    Seq::new(zs.len(), |i: int| cell_key_3d(zs[i].zone_x as int, zs[i].zone_y as int, zs[i].zone_z as int))
}

/// Keys of the blocks the clients look into.
pub open spec fn zone_probes_3d(zs: Seq<SpatialZone3D>, reach: u16) -> Seq<Seq<u128>> {
    Seq::new(zs.len(), |a: int| block_3d(zs[a], reach))
}

/// Candidate pairs `(a, b)` for a 3D proximity broadcast: for each client `a`,
/// each zone of its block, and each other client `b` in that zone.
pub open spec fn candidates_3d(zs: Seq<SpatialZone3D>, reach: u16) -> Seq<(usize, usize)> {
    interest_pairs(zone_cells_3d(zs), zone_probes_3d(zs, reach), zs.len() as int)
}

proof fn lemma_index_2d(w: int, i: int, j: int)
    requires
        w > 0,
        0 <= i < w,
        0 <= j < w,
    ensures
        (j * w + i) % w == i,
        (j * w + i) / w == j,
        0 <= j * w + i < w * w,
{
    vstd::arithmetic::div_mod::lemma_fundamental_div_mod_converse(j * w + i, w, j, i);
    assert(0 <= j * w + i < w * w) by (nonlinear_arith)
        requires
            w > 0,
            0 <= i < w,
            0 <= j < w,
    ;
}

proof fn lemma_split_2d(w: int, t: int)
    requires
        w > 0,
        0 <= t < w * w,
    ensures
        0 <= t % w < w,
        0 <= t / w < w,
        t == (t / w) * w + t % w,
{
    vstd::arithmetic::div_mod::lemma_fundamental_div_mod(t, w);
    assert(0 <= t % w < w);
    assert(0 <= t / w < w) by (nonlinear_arith)
        requires
            w > 0,
            0 <= t < w * w,
            t == w * (t / w) + t % w,
            0 <= t % w < w,
    ;
    assert(w * (t / w) == (t / w) * w) by (nonlinear_arith);
}

/// The 2D block holds exactly the zones at most `reach` away along each axis.
pub proof fn lemma_block_2d_contains(z: SpatialZone2D, reach: u16, x: i32, y: i32)
    ensures
        (exists|t: int| 0 <= t < block_2d(z, reach).len() && cell_key_2d(x as int, y as int) == #[trigger] block_2d(z, reach)[t])
            <==> (z.zone_x - reach <= x <= z.zone_x + reach && z.zone_y - reach <= y <= z.zone_y + reach),
{
    let w = block_width(reach);
    let blk = block_2d(z, reach);
    assert(w * w >= 0) by (nonlinear_arith)
        requires
            w > 0,
    ;
    if exists|t: int| 0 <= t < blk.len() && cell_key_2d(x as int, y as int) == #[trigger] blk[t] {
        let t = choose|t: int| 0 <= t < blk.len() && cell_key_2d(x as int, y as int) == #[trigger] blk[t];
        lemma_split_2d(w, t);
        lemma_cell_key_2d_injective(x as int, y as int, z.zone_x + t % w - reach, z.zone_y + t / w - reach);
    }
    if z.zone_x - reach <= x <= z.zone_x + reach && z.zone_y - reach <= y <= z.zone_y + reach {
        let i = x - z.zone_x + reach;
        let j = y - z.zone_y + reach;
        lemma_index_2d(w, i, j);
        let t = j * w + i;
        assert(blk[t] == cell_key_2d(x as int, y as int));
    }
}

/// The 3D block holds exactly the zones at most `reach` away along each axis.
pub proof fn lemma_block_3d_contains(z: SpatialZone3D, reach: u16, x: i32, y: i32, v: i32)
    ensures
        (exists|t: int|
            0 <= t < block_3d(z, reach).len() && cell_key_3d(x as int, y as int, v as int) == #[trigger] block_3d(z, reach)[t])
            <==> (z.zone_x - reach <= x <= z.zone_x + reach && z.zone_y - reach <= y <= z.zone_y + reach
            && z.zone_z - reach <= v <= z.zone_z + reach),
{
    let w = block_width(reach);
    let blk = block_3d(z, reach);
    assert(w * w * w >= 0) by (nonlinear_arith)
        requires
            w > 0,
    ;
    if exists|t: int| 0 <= t < blk.len() && cell_key_3d(x as int, y as int, v as int) == #[trigger] blk[t] {
        let t = choose|t: int| 0 <= t < blk.len() && cell_key_3d(x as int, y as int, v as int) == #[trigger] blk[t];
        let u = t / w;
        vstd::arithmetic::div_mod::lemma_fundamental_div_mod(t, w);
        assert(0 <= u < w * w) by (nonlinear_arith)
            requires
                w > 0,
                0 <= t < w * w * w,
                t == w * u + t % w,
                0 <= t % w < w,
        ;
        lemma_split_2d(w, u);
        lemma_cell_key_3d_injective(
            x as int,
            y as int,
            v as int,
            z.zone_x + t % w - reach,
            z.zone_y + u % w - reach,
            z.zone_z + u / w - reach,
        );
    }
    if z.zone_x - reach <= x <= z.zone_x + reach && z.zone_y - reach <= y <= z.zone_y + reach && z.zone_z
        - reach <= v <= z.zone_z + reach {
        let i = x - z.zone_x + reach;
        let j = y - z.zone_y + reach;
        let k = v - z.zone_z + reach;
        lemma_index_2d(w, j, k);
        let u = k * w + j;
        vstd::arithmetic::div_mod::lemma_fundamental_div_mod_converse(u * w + i, w, u, i);
        assert(0 <= u * w + i < w * w * w) by (nonlinear_arith)
            requires
                w > 0,
                0 <= i < w,
                0 <= u < w * w,
        ;
        let t = u * w + i;
        assert(blk[t] == cell_key_3d(x as int, y as int, v as int));
    }
}

fn push_block_2d(z: &SpatialZone2D, reach: u16) -> (probe: Vec<u128>)
    ensures
        probe@ == block_2d(*z, reach),
{
    let w: u64 = 2 * reach as u64 + 1;
    let ghost wi = w as int;
    let ghost blk = block_2d(*z, reach);
    assert(wi * wi >= 0) by (nonlinear_arith)
        requires
            wi > 0,
    ;
    let mut probe: Vec<u128> = Vec::new();
    let mut j: u64 = 0;
    while j < w
        invariant
            w == block_width(reach),
            wi == w as int,
            blk == block_2d(*z, reach),
            j <= w,
            probe@ =~= blk.take(j * wi),
            j * wi <= wi * wi,
        decreases w - j,
    {
        let y = z.zone_y as i64 + j as i64 - reach as i64;
        let mut i: u64 = 0;
        while i < w
            invariant
                w == block_width(reach),
                wi == w as int,
                blk == block_2d(*z, reach),
                j < w,
                i <= w,
                y == z.zone_y + j - reach,
                probe@ =~= blk.take(j * wi + i),
            decreases w - i,
        {
            let x = z.zone_x as i64 + i as i64 - reach as i64;
            proof {
                lemma_index_2d(wi, i as int, j as int);
                assert(blk.take(j * wi + i + 1) =~= blk.take(j * wi + i).push(blk[j * wi + i]));
            }
            probe.push(key_2d(x, y));
            i = i + 1;
        }
        proof {
            assert((j + 1) * wi == j * wi + wi) by (nonlinear_arith);
            assert((j + 1) * wi <= wi * wi) by (nonlinear_arith)
                requires
                    j + 1 <= wi,
                    wi > 0,
            ;
        }
        j = j + 1;
    }
    assert(probe@ =~= blk);
    probe
}

fn push_block_3d(z: &SpatialZone3D, reach: u16) -> (probe: Vec<u128>)
    ensures
        probe@ == block_3d(*z, reach),
{
    let w: u64 = 2 * reach as u64 + 1;
    let ghost wi = w as int;
    let ghost blk = block_3d(*z, reach);
    assert(wi * wi * wi >= 0) by (nonlinear_arith)
        requires
            wi > 0,
    ;
    let mut probe: Vec<u128> = Vec::new();
    let mut k: u64 = 0;
    while k < w
        invariant
            w == block_width(reach),
            wi == w as int,
            blk == block_3d(*z, reach),
            k <= w,
            probe@ =~= blk.take(k * wi * wi),
        decreases w - k,
    {
        let v = z.zone_z as i64 + k as i64 - reach as i64;
        let mut j: u64 = 0;
        while j < w
            invariant
                w == block_width(reach),
                wi == w as int,
                blk == block_3d(*z, reach),
                k < w,
                j <= w,
                v == z.zone_z + k - reach,
                probe@ =~= blk.take((k * wi + j) * wi),
            decreases w - j,
        {
            let y = z.zone_y as i64 + j as i64 - reach as i64;
            let mut i: u64 = 0;
            while i < w
                invariant
                    w == block_width(reach),
                    wi == w as int,
                    blk == block_3d(*z, reach),
                    k < w,
                    j < w,
                    i <= w,
                    v == z.zone_z + k - reach,
                    y == z.zone_y + j - reach,
                    probe@ =~= blk.take((k * wi + j) * wi + i),
                decreases w - i,
            {
                let x = z.zone_x as i64 + i as i64 - reach as i64;
                proof {
                    let u = k * wi + j;
                    lemma_index_2d(wi, j as int, k as int);
                    vstd::arithmetic::div_mod::lemma_fundamental_div_mod_converse(u * wi + i, wi, u, i as int);
                    assert(0 <= u * wi + i < wi * wi * wi) by (nonlinear_arith)
                        requires
                            wi > 0,
                            0 <= i < wi,
                            0 <= u < wi * wi,
                    ;
                    let t = u * wi + i;
                    assert(blk.take(t + 1) =~= blk.take(t).push(blk[t]));
                }
                probe.push(key_3d(x, y, v));
                i = i + 1;
            }
            proof {
                assert((k * wi + j + 1) * wi == (k * wi + j) * wi + wi) by (nonlinear_arith);
            }
            j = j + 1;
        }
        proof {
            assert((k * wi + wi) * wi == (k + 1) * wi * wi) by (nonlinear_arith);
            assert(k * wi * wi == (k * wi + 0) * wi) by (nonlinear_arith);
        }
        k = k + 1;
    }
    proof {
        assert(wi * wi * wi == wi * wi * wi);
    }
    assert(probe@ =~= blk);
    probe
}

/// The pairs of clients to test for proximity, in broadcast order, using a
/// zone-to-clients index so that only the zones at most `reach` away (along
/// each axis) from a client's zone are examined.
pub fn nearby_candidates_2d(zones: &Vec<SpatialZone2D>, reach: u16) -> (out: Vec<(usize, usize)>)
    ensures
        out@ == candidates_2d(zones@, reach),
{
    let n = zones.len();
    let mut cells: Vec<u128> = Vec::new();
    let mut probes: Vec<Vec<u128>> = Vec::new();
    let mut i: usize = 0;
    while i < n
        invariant
            i <= n == zones@.len(),
            cells@ =~= zone_cells_2d(zones@).take(i as int),
            probes@.map_values(|v: Vec<u128>| v@) =~= zone_probes_2d(zones@, reach).take(i as int),
        decreases n - i,
    {
        let z = &zones[i];
        cells.push(key_2d(z.zone_x as i64, z.zone_y as i64));
        let probe = push_block_2d(z, reach);
        let ghost before = probes@;
        probes.push(probe);
        assert(probes@.map_values(|v: Vec<u128>| v@) =~= before.map_values(|v: Vec<u128>| v@).push(
            zone_probes_2d(zones@, reach)[i as int],
        ));
        assert(zone_probes_2d(zones@, reach).take(i + 1) =~= zone_probes_2d(zones@, reach).take(i as int).push(
            zone_probes_2d(zones@, reach)[i as int],
        ));
        i = i + 1;
    }
    assert(zone_cells_2d(zones@).take(n as int) =~= zone_cells_2d(zones@));
    assert(zone_probes_2d(zones@, reach).take(n as int) =~= zone_probes_2d(zones@, reach));
    pairs_by_cell(&cells, &probes)
}

/// The pairs of clients to test for proximity in a volumetric 3D world, in
/// broadcast order, examining only the zones at most `reach` away along each axis.
pub fn nearby_candidates_3d(zones: &Vec<SpatialZone3D>, reach: u16) -> (out: Vec<(usize, usize)>)
    ensures
        out@ == candidates_3d(zones@, reach),
{
    let n = zones.len();
    let mut cells: Vec<u128> = Vec::new();
    let mut probes: Vec<Vec<u128>> = Vec::new();
    let mut i: usize = 0;
    while i < n
        invariant
            i <= n == zones@.len(),
            cells@ =~= zone_cells_3d(zones@).take(i as int),
            probes@.map_values(|v: Vec<u128>| v@) =~= zone_probes_3d(zones@, reach).take(i as int),
        decreases n - i,
    {
        let z = &zones[i];
        cells.push(key_3d(z.zone_x as i64, z.zone_y as i64, z.zone_z as i64));
        let probe = push_block_3d(z, reach);
        let ghost before = probes@;
        probes.push(probe);
        assert(probes@.map_values(|v: Vec<u128>| v@) =~= before.map_values(|v: Vec<u128>| v@).push(
            zone_probes_3d(zones@, reach)[i as int],
        ));
        assert(zone_probes_3d(zones@, reach).take(i + 1) =~= zone_probes_3d(zones@, reach).take(i as int).push(
            zone_probes_3d(zones@, reach)[i as int],
        ));
        i = i + 1;
    }
    assert(zone_cells_3d(zones@).take(n as int) =~= zone_cells_3d(zones@));
    assert(zone_probes_3d(zones@, reach).take(n as int) =~= zone_probes_3d(zones@, reach));
    pairs_by_cell(&cells, &probes)
}

proof fn lemma_concat_contains<A>(x: Seq<A>, y: Seq<A>, e: A)
    ensures
        (x + y).contains(e) <==> (x.contains(e) || y.contains(e)),
{
    if (x + y).contains(e) {
        let i = choose|i: int| 0 <= i < (x + y).len() && (x + y)[i] == e;
        if i < x.len() {
            assert(x[i] == e);
        } else {
            assert(y[i - x.len()] == e);
        }
    }
    if x.contains(e) {
        let i = choose|i: int| 0 <= i < x.len() && x[i] == e;
        assert((x + y)[i] == e);
    }
    if y.contains(e) {
        let i = choose|i: int| 0 <= i < y.len() && y[i] == e;
        assert((x + y)[i + x.len()] == e);
    }
}

proof fn lemma_cell_members_contains(cells: Seq<u128>, key: u128, n: int, j: usize)
    requires
        0 <= n <= cells.len(),
        cells.len() <= usize::MAX,
    ensures
        cell_members(cells, key, n).contains(j) <==> (j < n && cells[j as int] == key),
    decreases n,
{
    if n > 0 {
        lemma_cell_members_contains(cells, key, n - 1, j);
        let tail = if cells[n - 1] == key {
            seq![(n - 1) as usize]
        } else {
            Seq::empty()
        };
        lemma_concat_contains(cell_members(cells, key, n - 1), tail, j);
        if tail.contains(j) {
            assert(tail[0] == j);
        }
        if j == n - 1 && cells[j as int] == key {
            assert(tail[0] == j);
        }
    }
}

proof fn lemma_pairs_with_contains(a: usize, members: Seq<usize>, p: (usize, usize))
    ensures
        pairs_with(a, members).contains(p) <==> (p.0 == a && p.1 != a && members.contains(p.1)),
    decreases members.len(),
{
    if members.len() > 0 {
        let init = members.drop_last();
        lemma_pairs_with_contains(a, init, p);
        let tail = if members.last() != a {
            seq![(a, members.last())]
        } else {
            Seq::empty()
        };
        lemma_concat_contains(pairs_with(a, init), tail, p);
        assert(members =~= init.push(members.last()));
        lemma_concat_contains(init, seq![members.last()], p.1);
        if tail.contains(p) {
            assert(tail[0] == p);
        }
        if p.0 == a && p.1 != a && p.1 == members.last() {
            assert(tail[0] == p);
        }
        if seq![members.last()].contains(p.1) {
            assert(seq![members.last()][0] == p.1);
        }
        if p.1 == members.last() {
            assert(seq![members.last()][0] == p.1);
        }
    } else {
        assert(!members.contains(p.1));
    }
}

proof fn lemma_probe_pairs_contains(cells: Seq<u128>, a: usize, probe: Seq<u128>, k: int, p: (usize, usize))
    requires
        0 <= k <= probe.len(),
        cells.len() <= usize::MAX,
    ensures
        probe_pairs(cells, a, probe, k).contains(p) <==> (p.0 == a && p.1 != a && p.1 < cells.len()
            && exists|t: int| 0 <= t < k && cells[p.1 as int] == #[trigger] probe[t]),
    decreases k,
{
    if k > 0 {
        lemma_probe_pairs_contains(cells, a, probe, k - 1, p);
        let last = pairs_with(a, cell_members(cells, probe[k - 1], cells.len() as int));
        lemma_concat_contains(probe_pairs(cells, a, probe, k - 1), last, p);
        lemma_pairs_with_contains(a, cell_members(cells, probe[k - 1], cells.len() as int), p);
        lemma_cell_members_contains(cells, probe[k - 1], cells.len() as int, p.1);
        if p.0 == a && p.1 != a && p.1 < cells.len() && exists|t: int|
            0 <= t < k && cells[p.1 as int] == #[trigger] probe[t] {
            let t = choose|t: int| 0 <= t < k && cells[p.1 as int] == #[trigger] probe[t];
            if t < k - 1 {
                assert(exists|u: int| 0 <= u < k - 1 && cells[p.1 as int] == #[trigger] probe[u]);
            }
        }
    }
}

proof fn lemma_interest_pairs_contains(cells: Seq<u128>, probes: Seq<Seq<u128>>, a: int, p: (usize, usize))
    requires
        0 <= a <= probes.len(),
        cells.len() <= usize::MAX,
        probes.len() <= usize::MAX + 1,
    ensures
        interest_pairs(cells, probes, a).contains(p) <==> (p.0 < a && p.1 != p.0 && p.1 < cells.len()
            && exists|t: int|
            0 <= t < probes[p.0 as int].len() && cells[p.1 as int] == #[trigger] probes[p.0 as int][t]),
    decreases a,
{
    if a > 0 {
        lemma_interest_pairs_contains(cells, probes, a - 1, p);
        let last = probe_pairs(cells, (a - 1) as usize, probes[a - 1], probes[a - 1].len() as int);
        lemma_concat_contains(interest_pairs(cells, probes, a - 1), last, p);
        lemma_probe_pairs_contains(cells, (a - 1) as usize, probes[a - 1], probes[a - 1].len() as int, p);
        if p.0 as int == a - 1 {
            assert(probes[p.0 as int] == probes[a - 1]);
        }
    }
}

/// The 2D candidates are exactly the ordered pairs of distinct clients whose
/// zones are at most `reach` zones apart along each axis.
pub proof fn law_candidates_within_reach_2d(zs: Seq<SpatialZone2D>, reach: u16, a: usize, b: usize)
    requires
        zs.len() <= usize::MAX,
    ensures
        candidates_2d(zs, reach).contains((a, b)) <==> (a < zs.len() && b < zs.len() && a != b && zs[a as int].zone_x
            - reach <= zs[b as int].zone_x <= zs[a as int].zone_x + reach && zs[a as int].zone_y - reach <= zs[b as int].zone_y
            <= zs[a as int].zone_y + reach),
{
    let cells = zone_cells_2d(zs);
    let probes = zone_probes_2d(zs, reach);
    lemma_interest_pairs_contains(cells, probes, zs.len() as int, (a, b));
    if a < zs.len() && b < zs.len() {
        let blk = block_2d(zs[a as int], reach);
        let key = cell_key_2d(zs[b as int].zone_x as int, zs[b as int].zone_y as int);
        lemma_block_2d_contains(zs[a as int], reach, zs[b as int].zone_x, zs[b as int].zone_y);
        assert(probes[a as int] == blk);
        assert(cells[b as int] == key);
        if exists|t: int| 0 <= t < blk.len() && key == #[trigger] blk[t] {
            let t = choose|t: int| 0 <= t < blk.len() && key == #[trigger] blk[t];
            assert(cells[b as int] == probes[a as int][t]);
        }
        if exists|t: int| 0 <= t < probes[a as int].len() && cells[b as int] == #[trigger] probes[a as int][t] {
            let t = choose|t: int| 0 <= t < probes[a as int].len() && cells[b as int] == #[trigger] probes[a as int][t];
            assert(key == blk[t]);
        }
    }
}

/// The 3D candidates are exactly the ordered pairs of distinct clients whose
/// zones are at most `reach` zones apart along each axis.
pub proof fn law_candidates_within_reach_3d(zs: Seq<SpatialZone3D>, reach: u16, a: usize, b: usize)
    requires
        zs.len() <= usize::MAX,
    ensures
        candidates_3d(zs, reach).contains((a, b)) <==> (a < zs.len() && b < zs.len() && a != b && zs[a as int].zone_x
            - reach <= zs[b as int].zone_x <= zs[a as int].zone_x + reach && zs[a as int].zone_y - reach <= zs[b as int].zone_y
            <= zs[a as int].zone_y + reach && zs[a as int].zone_z - reach <= zs[b as int].zone_z <= zs[a as int].zone_z
            + reach),
{
    let cells = zone_cells_3d(zs);
    let probes = zone_probes_3d(zs, reach);
    lemma_interest_pairs_contains(cells, probes, zs.len() as int, (a, b));
    if a < zs.len() && b < zs.len() {
        lemma_block_3d_contains(zs[a as int], reach, zs[b as int].zone_x, zs[b as int].zone_y, zs[b as int].zone_z);
        assert(probes[a as int] == block_3d(zs[a as int], reach));
        assert(cells[b as int] == cell_key_3d(
            zs[b as int].zone_x as int,
            zs[b as int].zone_y as int,
            zs[b as int].zone_z as int,
        ));
    }
}

/// The coordinate words of a `/move x y [z]` command.
pub struct MoveArgs<'a> {
    pub x: &'a str,
    pub y: &'a str,
    pub z: Option<&'a str>,
}

/// The coordinate words of a move command: `/move x y` or `/move x y z`, as
/// white-space separated words; any other text is no move command.
pub open spec fn move_words(text: Seq<char>) -> Option<(Seq<char>, Seq<char>, Option<Seq<char>>)> {
    let w = words(text);
    if (w.len() == 3 || w.len() == 4) && w[0] == "/move"@ {
        Some((w[1], w[2], if w.len() == 4 { Some(w[3]) } else { None }))
    } else {
        None
    }
}

/// Splits a `/move x y [z]` command into its coordinate words.
pub fn move_command_fields<'a>(text: &'a str) -> (r: Option<MoveArgs<'a>>)
    ensures
        r is Some <==> move_words(text@) is Some,
        r matches Some(m) ==> ({
            let (x, y, z) = move_words(text@)->0;
            &&& m.x@ == x
            &&& m.y@ == y
            &&& (m.z is Some <==> z is Some)
            &&& (m.z matches Some(mz) ==> mz@ == z->0)
        }),
{
    let cs = chars_of(text);
    let ghost s = cs@;
    let (a0, b0) = match next_word(&cs, 0) {
        Some(r) => r,
        None => return None,
    };
    if !range_equals(&cs, a0, b0, "/move") {
        return None;
    }
    let (a1, b1) = match next_word(&cs, b0) {
        Some(r) => r,
        None => {
            assert(words(s) =~= seq![s.subrange(a0 as int, b0 as int)]);
            return None;
        },
    };
    let (a2, b2) = match next_word(&cs, b1) {
        Some(r) => r,
        None => {
            assert(words(s) =~= seq![s.subrange(a0 as int, b0 as int), s.subrange(a1 as int, b1 as int)]);
            return None;
        },
    };
    let ghost w0 = s.subrange(a0 as int, b0 as int);
    let ghost w1 = s.subrange(a1 as int, b1 as int);
    let ghost w2 = s.subrange(a2 as int, b2 as int);
    assert(words(s) =~= seq![w0, w1, w2] + words_from(s, b2 as int));
    let x = text.substring_char(a1, b1);
    let y = text.substring_char(a2, b2);
    let z = match next_word(&cs, b2) {
        Some((a3, b3)) => {
            let ghost w3 = s.subrange(a3 as int, b3 as int);
            assert(words(s) =~= seq![w0, w1, w2, w3] + words_from(s, b3 as int));
            match next_word(&cs, b3) {
                Some((a4, b4)) => {
                    let ghost w4 = s.subrange(a4 as int, b4 as int);
                    assert(words(s) =~= seq![w0, w1, w2, w3, w4] + words_from(s, b4 as int));
                    assert(words(s).len() >= 5);
                    return None;
                },
                None => {
                    assert(words(s) =~= seq![w0, w1, w2, w3]);
                },
            }
            Some(text.substring_char(a3, b3))
        },
        None => {
            assert(words(s) =~= seq![w0, w1, w2]);
            None
        },
    };
    Some(MoveArgs { x, y, z })
}

} // verus!
