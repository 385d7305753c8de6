//! PAL5 ground decisions: which terrain texture layers a patch blends and
//! with which weights, which grass-density cells grow grass, the stable
//! hash that scatters it, and how the tuning switches read the
//! environment's text.
use vstd::prelude::*;

use crate::pal5_script::{parse_u32, trim, u32_of_text};
use crate::text::chars_of;

verus! {

/// Grass texture used when a leaf names none.
pub const FALLBACK_GRASS_TEX: i32 = 0;

/// Grass texture of a density leaf: its first texture, else its second,
/// else the fallback (a negative id is unset).
pub fn grass_texture_id(tex0: i32, tex1: i32) -> (r: i32)
    ensures
        r == if tex0 >= 0 { tex0 } else if tex1 >= 0 { tex1 } else { FALLBACK_GRASS_TEX },
{
    if tex0 >= 0 {
        tex0
    } else if tex1 >= 0 {
        tex1
    } else {
        FALLBACK_GRASS_TEX
    }
}

/// The position hash that scatters grass: stable for equal inputs.
pub open spec fn grass_hash(a: u32, b: u32, c: u32) -> u32 {
    let h0 = ((a * 73856093) % 0x1_0000_0000) as u32 ^ ((b * 19349663) % 0x1_0000_0000) as u32 ^ ((c * 83492791)
        % 0x1_0000_0000) as u32;
    let h1 = h0 ^ (h0 >> 13u32);
    let h2 = ((h1 * 1274126177) % 0x1_0000_0000) as u32;
    h2 ^ (h2 >> 16u32)
}

pub fn hash(a: u32, b: u32, c: u32) -> (r: u32)
    ensures
        r == grass_hash(a, b, c),
{
    let mut h = a.wrapping_mul(73856093) ^ b.wrapping_mul(19349663) ^ c.wrapping_mul(83492791);
    h = h ^ (h >> 13u32);
    h = h.wrapping_mul(1274126177);
    h ^ (h >> 16u32)
}

/// The hash of a density cell: its tile (x in the high half-word, z in the
/// low one) with its row and column.
pub fn cell_key(tile_x: u32, tile_z: u32, row: u32, col: u32) -> (r: u32)
    ensures
        r == grass_hash((tile_x << 16u32) | tile_z, row, col),
{
    hash((tile_x << 16u32) | tile_z, row, col)
}

/// The low 24 bits of a hash: its fraction of `2^24`, the `[0, 1)` value
/// that decides whether a cell grows grass and where a blade stands.
pub fn frac_numerator(h: u32) -> (r: u32)
    ensures
        r == h & 0x00ff_ffffu32,
{
    h & 0x00ff_ffffu32
}

/// Largest grid edge of a density leaf.
pub const MAX_LEAF_EDGE: u32 = 64;

pub open spec fn clamp_edge(n: u32) -> u32 {
    if n < 1 { 1 } else if n > MAX_LEAF_EDGE { MAX_LEAF_EDGE } else { n }
}

/// The columns and rows of a leaf's density grid, each clamped to
/// `1..=64`, when the leaf can be used: it has density bytes, a tile size,
/// and at least a full grid of bytes.
pub open spec fn leaf_grid(density_len: int, tiles_per_edge: u32, cols: u32, rows: u32) -> Option<(u32, u32)> {
    let c = clamp_edge(cols);
    let r = clamp_edge(rows);
    if density_len == 0 || tiles_per_edge == 0 || density_len < c * r {
        None
    } else {
        Some((c, r))
    }
}

pub fn grass_leaf_grid(density_len: usize, tiles_per_edge: u32, cols: u32, rows: u32) -> (r: Option<(u32, u32)>)
    ensures
        r == leaf_grid(density_len as int, tiles_per_edge, cols, rows),
{
    let c = if cols < 1 {
        1
    } else if cols > MAX_LEAF_EDGE {
        MAX_LEAF_EDGE
    } else {
        cols
    };
    let r = if rows < 1 {
        1
    } else if rows > MAX_LEAF_EDGE {
        MAX_LEAF_EDGE
    } else {
        rows
    };
    assert((c as u64) * (r as u64) <= 4096) by (nonlinear_arith)
        requires
            c <= 64,
            r <= 64,
    ;
    if density_len == 0 || tiles_per_edge == 0 || (density_len as u64) < (c as u64) * (r as u64) {
        None
    } else {
        Some((c, r))
    }
}

/// One density cell of a leaf.
#[derive(Debug, Clone, Copy, PartialEq, Eq, Structural)]
pub struct GrassCell {
    pub row: u32,
    pub col: u32,
    pub density: u32,
}

/// The cells of a `cols` by `rows` grid, row by row, whose density
/// satisfies `keep`.
pub open spec fn cells_where(density: Seq<u8>, cols: u32, rows: u32, n: int, keep: spec_fn(u32) -> bool) -> Seq<
    GrassCell,
>
    decreases n,
{
    if n <= 0 {
        Seq::empty()
    } else {
        let rest = cells_where(density, cols, rows, n - 1, keep);
        let i = n - 1;
        let d = density[i] as u32;
        if keep(d) {
            rest.push(GrassCell { row: (i / cols as int) as u32, col: (i % cols as int) as u32, density: d })
        } else {
            rest
        }
    }
}

fn select_cells(density: &[u8], cols: u32, rows: u32, lo: u32, hi: u32) -> (r: Vec<GrassCell>)
    requires
        1 <= cols <= MAX_LEAF_EDGE,
        1 <= rows <= MAX_LEAF_EDGE,
        cols * rows <= density@.len(),
    ensures
        r@ == cells_where(density@, cols, rows, cols * rows, |d: u32| lo <= d <= hi),
{
    assert(cols * rows <= 4096) by (nonlinear_arith)
        requires
            cols <= 64,
            rows <= 64,
    ;
    let n: usize = (cols * rows) as usize;
    let mut out: Vec<GrassCell> = Vec::new();
    let mut i: usize = 0;
    while i < n
        invariant
            i <= n,
            n == cols * rows,
            1 <= cols <= MAX_LEAF_EDGE,
            n <= density@.len(),
            n <= 4096,
            out@ == cells_where(density@, cols, rows, i as int, |d: u32| lo <= d <= hi),
        decreases n - i,
    {
        let d = density[i] as u32;
        let ii = i as u32;
        proof {
            assert(ii == i);
            let keep = |d: u32| lo <= d <= hi;
            assert(keep(d) == (lo <= d <= hi));
        }
        if lo <= d && d <= hi {
            let cell = GrassCell { row: ii / cols, col: ii % cols, density: d };
            proof {
                assert(cell.row == ((i as int) / (cols as int)) as u32);
                assert(cell.col == ((i as int) % (cols as int)) as u32);
            }
            out.push(cell);
        }
        i = i + 1;
    }
    out
}

/// The cells of a flat overlay: density at least `min_density`.
pub fn overlay_cells(density: &[u8], cols: u32, rows: u32, min_density: u32) -> (r: Vec<GrassCell>)
    requires
        1 <= cols <= MAX_LEAF_EDGE,
        1 <= rows <= MAX_LEAF_EDGE,
        cols * rows <= density@.len(),
    ensures
        r@ == cells_where(density@, cols, rows, cols * rows, |d: u32| min_density <= d),
{
    let r = select_cells(density, cols, rows, min_density, u32::MAX);
    proof {
        assert(cells_where(density@, cols, rows, cols * rows, |d: u32| min_density <= d <= u32::MAX)
            == cells_where(density@, cols, rows, cols * rows, |d: u32| min_density <= d)) by {
            lemma_cells_where_same(density@, cols, rows, cols * rows, |d: u32| min_density <= d <= u32::MAX, |d: u32| min_density <= d);
        }
    }
    r
}

/// The cells where grass blades grow: the grass-dominant ones, of density
/// from 1 up to `blade_max` (higher density is bare path, 0 is uncovered).
pub fn blade_cells(density: &[u8], cols: u32, rows: u32, blade_max: u32) -> (r: Vec<GrassCell>)
    requires
        1 <= cols <= MAX_LEAF_EDGE,
        1 <= rows <= MAX_LEAF_EDGE,
        cols * rows <= density@.len(),
    ensures
        r@ == cells_where(density@, cols, rows, cols * rows, |d: u32| 1 <= d <= blade_max),
{
    select_cells(density, cols, rows, 1, blade_max)
}

proof fn lemma_cells_where_same(density: Seq<u8>, cols: u32, rows: u32, n: int, f: spec_fn(u32) -> bool, g: spec_fn(u32) -> bool)
    requires
        forall|d: u32| #[trigger] f(d) == g(d),
    ensures
        cells_where(density, cols, rows, n, f) == cells_where(density, cols, rows, n, g),
    decreases n,
{
    if n > 0 {
        lemma_cells_where_same(density, cols, rows, n - 1, f, g);
    }
}

/// Whether a switch is on, read from its environment text (`None` when
/// unset): unset gives the default; `0`, `false`, `off`, `no` and the empty
/// text (around white space) are off; anything else is on.
pub open spec fn env_flag_value(text: Option<Seq<char>>, default: bool) -> bool {
    match text {
        None => default,
        Some(t) => {
            let v = trim(t);
            !(v == seq!['0'] || v == seq!['f', 'a', 'l', 's', 'e'] || v == seq!['o', 'f', 'f'] || v == seq![
                'n',
                'o',
            ] || v.len() == 0)
        },
    }
}

pub fn env_flag(text: Option<&str>, default: bool) -> (r: bool)
    ensures
        r == env_flag_value(
            match text {
                Some(t) => Some(t@),
                None => None,
            },
            default,
        ),
{
    match text {
        None => default,
        Some(t) => {
            let v = chars_of(t);
            let n = v.len();
            let (a, b) = crate::pal5_script::trim_chars(&v, 0, n);
            proof {
                assert(v@.subrange(0, n as int) =~= t@);
            }
            let is_off = range_is(&v, a, b, "") || range_is(&v, a, b, "0") || range_is(&v, a, b, "false")
                || range_is(&v, a, b, "off") || range_is(&v, a, b, "no");
            proof {
                reveal_strlit("");
                reveal_strlit("0");
                reveal_strlit("false");
                reveal_strlit("off");
                reveal_strlit("no");
                let w = v@.subrange(a as int, b as int);
                assert(w =~= Seq::<char>::empty() <==> w.len() == 0);
                assert(""@ =~= Seq::<char>::empty());
                assert("0"@ =~= seq!['0']);
                assert("false"@ =~= seq!['f', 'a', 'l', 's', 'e']);
                assert("off"@ =~= seq!['o', 'f', 'f']);
                assert("no"@ =~= seq!['n', 'o']);
            }
            !is_off
        },
    }
}

/// Whether `v[a..b]` spells `lit`.
fn range_is(v: &Vec<char>, a: usize, b: usize, lit: &str) -> (r: bool)
    requires
        a <= b <= v.len(),
    ensures
        r == (v@.subrange(a as int, b as int) == lit@),
{
    let l = chars_of(lit);
    if l.len() != b - a {
        return false;
    }
    let mut i: usize = 0;
    while i < l.len()
        invariant
            a <= b <= v.len(),
            l.len() == b - a,
            l@ == lit@,
            i <= l.len(),
            forall|j: int| 0 <= j < i ==> v@[a + j] == l@[j],
        decreases l.len() - i,
    {
        if v[a + i] != l[i] {
            proof {
                assert(v@.subrange(a as int, b as int)[i as int] != lit@[i as int]);
            }
            return false;
        }
        i = i + 1;
    }
    assert(v@.subrange(a as int, b as int) =~= lit@);
    true
}

/// A number switch read from its environment text (`None` when unset):
/// the value when the whole text is a `u32`, else the default.
pub fn env_u32(text: Option<&str>, default: u32) -> (r: u32)
    ensures
        r == match text {
            Some(t) => match u32_of_text(t@) {
                Some(v) => v,
                None => default,
            },
            None => default,
        },
{
    match text {
        None => default,
        Some(t) => {
            let v = chars_of(t);
            let n = v.len();
            proof {
                assert(v@.subrange(0, n as int) =~= t@);
            }
            match parse_u32(&v, 0, n) {
                Some(x) => x,
                None => default,
            }
        },
    }
}

/// The four terrain layers of a patch (slot 0 first; negative is unused):
/// its own palette when it names any layer, else the block's default.
pub fn patch_layer_ids(tex_table: [i32; 4], footer: [i32; 4]) -> (r: [i32; 4])
    ensures
        r == if tex_table[0] >= 0 || tex_table[1] >= 0 || tex_table[2] >= 0 || tex_table[3] >= 0 {
            tex_table
        } else {
            footer
        },
{
    if tex_table[0] >= 0 || tex_table[1] >= 0 || tex_table[2] >= 0 || tex_table[3] >= 0 {
        tex_table
    } else {
        footer
    }
}

/// The packed weight byte that feeds each layer slot: slot 0 reads byte
/// 2, slot 1 byte 1, slot 2 byte 0, slot 3 byte 3.
pub open spec fn slot_byte(slot: int) -> int {
    if slot == 0 { 2 } else if slot == 1 { 1 } else if slot == 2 { 0 } else { 3 }
}

/// The weights of one texel for the four slots, from its four packed
/// bytes; a slot without a layer weighs nothing.
pub fn overlay_texel_weights(bytes: [u8; 4], layer_ids: [i32; 4]) -> (r: [u8; 4])
    ensures
        forall|slot: int|
            0 <= slot < 4 ==> #[trigger] r[slot] == if layer_ids[slot] >= 0 { bytes[slot_byte(slot)] } else { 0u8 },
{
    let w0 = if layer_ids[0] >= 0 { bytes[2] } else { 0 };
    let w1 = if layer_ids[1] >= 0 { bytes[1] } else { 0 };
    let w2 = if layer_ids[2] >= 0 { bytes[0] } else { 0 };
    let w3 = if layer_ids[3] >= 0 { bytes[3] } else { 0 };
    [w0, w1, w2, w3]
}

/// The slot a vertex paints, from its own layer index: that index when it
/// is a slot with a layer, else slot 0.
pub fn vertex_layer_slot(layer: i32, layer_ids: [i32; 4]) -> (r: usize)
    ensures
        r == if 0 <= layer <= 3 && layer_ids[layer as int] >= 0 { layer as usize } else { 0 },
        r < 4,
{
    if 0 <= layer && layer <= 3 && layer_ids[layer as usize] >= 0 {
        layer as usize
    } else {
        0
    }
}

/// Vertices per patch edge.
pub const PATCH_EDGE: usize = 17;

/// Weight texels per patch edge.
pub const WEIGHT_EDGE: usize = 64;

/// The patch vertex nearest to weight texel `(r, c)`: the texel grid is
/// scaled onto the vertex grid and rounded.
pub fn weight_texel_vertex(r: usize, c: usize) -> (v: usize)
    requires
        r < WEIGHT_EDGE,
        c < WEIGHT_EDGE,
    ensures
        v == ({
            let vr = (r * (PATCH_EDGE - 1) + WEIGHT_EDGE / 2) / WEIGHT_EDGE as int;
            let vc = (c * (PATCH_EDGE - 1) + WEIGHT_EDGE / 2) / WEIGHT_EDGE as int;
            (if vr < PATCH_EDGE - 1 { vr } else { PATCH_EDGE - 1 }) * PATCH_EDGE + (if vc < PATCH_EDGE - 1 {
                vc
            } else {
                PATCH_EDGE - 1
            })
        }),
        v < PATCH_EDGE * PATCH_EDGE,
{
    let vr = (r * (PATCH_EDGE - 1) + WEIGHT_EDGE / 2) / WEIGHT_EDGE;
    let vc = (c * (PATCH_EDGE - 1) + WEIGHT_EDGE / 2) / WEIGHT_EDGE;
    let vr = if vr < PATCH_EDGE - 1 {
        vr
    } else {
        PATCH_EDGE - 1
    };
    let vc = if vc < PATCH_EDGE - 1 {
        vc
    } else {
        PATCH_EDGE - 1
    };
    vr * PATCH_EDGE + vc
}

/// Number of slots with a layer, at least 1.
pub fn active_layer_count(layer_ids: [i32; 4]) -> (r: u8)
    ensures
        r == ({
            let n = (if layer_ids[0] >= 0 { 1int } else { 0 }) + (if layer_ids[1] >= 0 { 1int } else { 0 }) + (
            if layer_ids[2] >= 0 { 1int } else { 0 }) + (if layer_ids[3] >= 0 { 1int } else { 0 });
            if n >= 1 { n } else { 1 }
        }),
{
    let mut n: u8 = 0;
    if layer_ids[0] >= 0 {
        n = n + 1;
    }
    if layer_ids[1] >= 0 {
        n = n + 1;
    }
    if layer_ids[2] >= 0 {
        n = n + 1;
    }
    if layer_ids[3] >= 0 {
        n = n + 1;
    }
    if n >= 1 {
        n
    } else {
        1
    }
}

/// The first slot's layer that is set, which unused slots fall back to.
pub fn base_layer_id(layer_ids: [i32; 4]) -> (r: Option<i32>)
    ensures
        r == if layer_ids[0] >= 0 {
            Some(layer_ids[0])
        } else if layer_ids[1] >= 0 {
            Some(layer_ids[1])
        } else if layer_ids[2] >= 0 {
            Some(layer_ids[2])
        } else if layer_ids[3] >= 0 {
            Some(layer_ids[3])
        } else {
            None
        },
{
    if layer_ids[0] >= 0 {
        Some(layer_ids[0])
    } else if layer_ids[1] >= 0 {
        Some(layer_ids[1])
    } else if layer_ids[2] >= 0 {
        Some(layer_ids[2])
    } else if layer_ids[3] >= 0 {
        Some(layer_ids[3])
    } else {
        None
    }
}

} // verus!
