//! Where the game assets live in the mounted file systems: the paths the
//! PAL4, PAL5 and SWD5 asset loaders read.
use vstd::prelude::*;

use crate::text::{decimal, push_char, push_decimal, push_signed_decimal, push_str, signed_decimal, spec_lowercase, str_eq, to_lowercase};

verus! {

/// `/gamedata/script/<scene>.csb`: the compiled script module of a scene.
pub fn script_module_path(scene: &str) -> (r: String)
    ensures
        r@ == "/gamedata/script/"@ + scene@ + ".csb"@,
{
    let mut s = String::new();
    push_str(&mut s, "/gamedata/script/");
    push_str(&mut s, scene);
    push_str(&mut s, ".csb");
    s
}

/// Backslashes turned into slashes.
pub open spec fn forward_slashes(p: Seq<char>) -> Seq<char> {
    p.map_values(|c: char| if c == '\\' { '/' } else { c })
}

/// Appends `t` to `s` with backslashes turned into slashes.
fn push_slashed(s: &mut String, t: &str)
    ensures
        final(s)@ == old(s)@ + forward_slashes(t@),
{
    let cs = crate::text::chars_of(t);
    let mut i: usize = 0;
    while i < cs.len()
        invariant
            i <= cs.len(),
            cs@ == t@,
            s@ == old(s)@ + forward_slashes(t@.take(i as int)),
        decreases cs.len() - i,
    {
        let c = if cs[i] == '\\' {
            '/'
        } else {
            cs[i]
        };
        push_char(s, c);
        proof {
            assert(forward_slashes(t@.take(i + 1)) =~= forward_slashes(t@.take(i as int)).push(c));
        }
        i = i + 1;
    }
    proof {
        assert(t@.take(cs.len() as int) =~= t@);
    }
}

/// `/<folder><file>.dff` with backslashes turned into slashes: a GOB
/// object's model.
pub fn object_model_path(folder: &str, file_name: &str) -> (r: String)
    ensures
        r@ == forward_slashes("/"@ + folder@ + file_name@ + ".dff"@),
{
    let mut s = String::new();
    push_slashed(&mut s, "/");
    push_slashed(&mut s, folder);
    push_slashed(&mut s, file_name);
    push_slashed(&mut s, ".dff");
    proof {
        let a = "/"@;
        let b = folder@;
        let c = file_name@;
        let d = ".dff"@;
        assert(forward_slashes(a + b + c + d) =~= forward_slashes(a) + forward_slashes(b) + forward_slashes(c)
            + forward_slashes(d));
    }
    s
}

/// `/gamedata/PALActor/<actor>/<file>.<ext>`: a file of an actor.
pub fn actor_file_path(actor_name: &str, file: &str, ext: &str) -> (r: String)
    ensures
        r@ == "/gamedata/PALActor/"@ + actor_name@ + "/"@ + file@ + "."@ + ext@,
{
    let mut s = String::new();
    push_str(&mut s, "/gamedata/PALActor/");
    push_str(&mut s, actor_name);
    push_str(&mut s, "/");
    push_str(&mut s, file);
    push_str(&mut s, ".");
    push_str(&mut s, ext);
    s
}

/// `<root><scene>/<block>/<stem><suffix>`: a file of a scene block.
pub fn block_file_path(root: &str, scene: &str, block: &str, stem: &str, suffix: &str) -> (r: String)
    ensures
        r@ == root@ + scene@ + "/"@ + block@ + "/"@ + stem@ + suffix@,
{
    let mut s = String::new();
    push_str(&mut s, root);
    push_str(&mut s, scene);
    push_str(&mut s, "/");
    push_str(&mut s, block);
    push_str(&mut s, "/");
    push_str(&mut s, stem);
    push_str(&mut s, suffix);
    s
}

/// `/gamedata/scenedata/<scene>/<block>/<block>.evf`: the event regions.
pub fn evf_path(scene: &str, block: &str) -> (r: String)
    ensures
        r@ == "/gamedata/scenedata/"@ + scene@ + "/"@ + block@ + "/"@ + block@ + ".evf"@,
{
    block_file_path("/gamedata/scenedata/", scene, block, block, ".evf")
}

/// `/gamedata/scenedata/<scene>/<block>/GameObjs.gob`: the game objects.
pub fn gob_path(scene: &str, block: &str) -> (r: String)
    ensures
        r@ == "/gamedata/scenedata/"@ + scene@ + "/"@ + block@ + "/"@ + "GameObjs"@ + ".gob"@,
{
    block_file_path("/gamedata/scenedata/", scene, block, "GameObjs", ".gob")
}

/// `/gamedata/PALWorld/<scene>/<block>/<block><suffix>`: a world model of a
/// block (`.bsp`, `_sky.dff`, `_clip.dff`, `_clipNA.dff`).
pub fn world_model_path(scene: &str, block: &str, suffix: &str) -> (r: String)
    ensures
        r@ == "/gamedata/PALWorld/"@ + scene@ + "/"@ + block@ + "/"@ + block@ + suffix@,
{
    block_file_path("/gamedata/PALWorld/", scene, block, block, suffix)
}

/// `/gamedata/scenedata/<scene>/<block>/<block><suffix>`: a scene-data
/// model of a block (`_floor.dff`, `_wall.dff`).
pub fn scene_data_model_path(scene: &str, block: &str, suffix: &str) -> (r: String)
    ensures
        r@ == "/gamedata/scenedata/"@ + scene@ + "/"@ + block@ + "/"@ + block@ + suffix@,
{
    block_file_path("/gamedata/scenedata/", scene, block, block, suffix)
}

/// `/gamedata/scenedata/<scene>/<block>/npcInfo.npc`: the NPCs.
pub fn npc_info_path(scene: &str, block: &str) -> (r: String)
    ensures
        r@ == "/gamedata/scenedata/"@ + scene@ + "/"@ + block@ + "/"@ + "npcInfo"@ + ".npc"@,
{
    block_file_path("/gamedata/scenedata/", scene, block, "npcInfo", ".npc")
}

/// `/gamedata/scenedata/<scene>/<block>/<name>.cam`: camera data.
pub fn camera_data_path(name: &str, scene: &str, block: &str) -> (r: String)
    ensures
        r@ == "/gamedata/scenedata/"@ + scene@ + "/"@ + block@ + "/"@ + name@ + ".cam"@,
{
    block_file_path("/gamedata/scenedata/", scene, block, name, ".cam")
}

/// The places a block's water asset may be, most likely first.
pub open spec fn water_candidates(scene: Seq<char>, block: Seq<char>, ext: Seq<char>) -> Seq<Seq<char>> {
    let bl = spec_lowercase(block);
    let tail = block + "_water."@ + ext;
    seq![
        "/gamedata/PALWorld/"@ + scene + "/"@ + block + "/"@ + tail,
        "/gamedata/"@ + scene + "/q01/"@ + block + "/"@ + tail,
        "/gamedata/"@ + scene + "/"@ + bl + "/"@ + block + "/"@ + tail,
        "/gamedata/scenedata/"@ + scene + "/"@ + block + "/"@ + tail,
        "/gamedata/ui2/ui/uiWorld/"@ + bl + "/"@ + tail,
    ]
}

pub fn water_candidate_paths(scene: &str, block: &str, ext: &str) -> (r: Vec<String>)
    ensures
        r@.len() == 5,
        forall|i: int| 0 <= i < 5 ==> #[trigger] r@[i]@ == water_candidates(scene@, block@, ext@)[i],
{
    let bl = to_lowercase(block);
    let mut tail = String::new();
    push_str(&mut tail, block);
    push_str(&mut tail, "_water.");
    push_str(&mut tail, ext);
    let t = tail.as_str();
    let mut p0 = String::new();
    push_str(&mut p0, "/gamedata/PALWorld/");
    push_str(&mut p0, scene);
    push_str(&mut p0, "/");
    push_str(&mut p0, block);
    push_str(&mut p0, "/");
    push_str(&mut p0, t);
    let mut p1 = String::new();
    push_str(&mut p1, "/gamedata/");
    push_str(&mut p1, scene);
    push_str(&mut p1, "/q01/");
    push_str(&mut p1, block);
    push_str(&mut p1, "/");
    push_str(&mut p1, t);
    let mut p2 = String::new();
    push_str(&mut p2, "/gamedata/");
    push_str(&mut p2, scene);
    push_str(&mut p2, "/");
    push_str(&mut p2, bl.as_str());
    push_str(&mut p2, "/");
    push_str(&mut p2, block);
    push_str(&mut p2, "/");
    push_str(&mut p2, t);
    let mut p3 = String::new();
    push_str(&mut p3, "/gamedata/scenedata/");
    push_str(&mut p3, scene);
    push_str(&mut p3, "/");
    push_str(&mut p3, block);
    push_str(&mut p3, "/");
    push_str(&mut p3, t);
    let mut p4 = String::new();
    push_str(&mut p4, "/gamedata/ui2/ui/uiWorld/");
    push_str(&mut p4, bl.as_str());
    push_str(&mut p4, "/");
    push_str(&mut p4, t);
    let mut out: Vec<String> = Vec::new();
    out.push(p0);
    out.push(p1);
    out.push(p2);
    out.push(p3);
    out.push(p4);
    proof {
        let w = water_candidates(scene@, block@, ext@);
        assert(out@[0]@ =~= w[0]);
        assert(out@[1]@ =~= w[1]);
        assert(out@[2]@ =~= w[2]);
        assert(out@[3]@ =~= w[3]);
        assert(out@[4]@ =~= w[4]);
    }
    out
}

/// The first candidate that exists, when one does.
pub fn first_existing(candidates: &Vec<String>, exists: &Vec<bool>) -> (r: Option<usize>)
    requires
        candidates.len() == exists.len(),
    ensures
        r matches Some(i) ==> i < exists.len() && exists@[i as int] && forall|j: int| 0 <= j < i ==> !#[trigger] exists@[j],
        r is None ==> forall|j: int| 0 <= j < exists.len() ==> !#[trigger] exists@[j],
{
    let mut i: usize = 0;
    while i < exists.len()
        invariant
            i <= exists.len(),
            forall|j: int| 0 <= j < i ==> !#[trigger] exists@[j],
        decreases exists.len() - i,
    {
        if exists[i] {
            return Some(i);
        }
        i = i + 1;
    }
    None
}

/// The movies that live in `VideoA`; every other one lives in `videob`.
pub open spec fn in_video_a(name: Seq<char>) -> bool {
    let l = spec_lowercase(name);
    l == "1a.bik"@ || l == "end2.bik"@ || l == "pal4a.bik"@
}

/// `/gamedata/<folder>/<name>`: a movie, in its folder.
pub fn video_path(name: &str) -> (r: String)
    ensures
        r@ == "/gamedata/"@ + (if in_video_a(name@) { "VideoA"@ } else { "videob"@ }) + "/"@ + name@,
{
    let lower = to_lowercase(name);
    let a = str_eq(lower.as_str(), "1a.bik") || str_eq(lower.as_str(), "end2.bik") || str_eq(lower.as_str(), "pal4a.bik");
    let mut s = String::new();
    push_str(&mut s, "/gamedata/");
    if a {
        push_str(&mut s, "VideoA");
    } else {
        push_str(&mut s, "videob");
    }
    push_str(&mut s, "/");
    push_str(&mut s, name);
    s
}

/// `/gamedata/Music/<name>.smp`: a music track.
pub fn music_path(name: &str) -> (r: String)
    ensures
        r@ == "/gamedata/Music/"@ + name@ + ".smp"@,
{
    let mut s = String::new();
    push_str(&mut s, "/gamedata/Music/");
    push_str(&mut s, name);
    push_str(&mut s, ".smp");
    s
}

/// `/gamedata/PALSound/<name>.<ext>`: a sound.
pub fn sound_path(name: &str, ext: &str) -> (r: String)
    ensures
        r@ == "/gamedata/PALSound/"@ + name@ + "."@ + ext@,
{
    let mut s = String::new();
    push_str(&mut s, "/gamedata/PALSound/");
    push_str(&mut s, name);
    push_str(&mut s, ".");
    push_str(&mut s, ext);
    s
}

/// `/Map/<map>/<map>_<row>_<col>.<ext>`: a PAL5 map block file.
pub fn map_block_path(map: &str, row: u32, col: u32, ext: &str) -> (r: String)
    ensures
        r@ == "/Map/"@ + map@ + "/"@ + map@ + "_"@ + decimal(row as nat) + "_"@ + decimal(col as nat) + "."@ + ext@,
{
    let mut s = String::new();
    push_str(&mut s, "/Map/");
    push_str(&mut s, map);
    push_str(&mut s, "/");
    push_str(&mut s, map);
    push_str(&mut s, "_");
    push_decimal(&mut s, row as u64);
    push_str(&mut s, "_");
    push_decimal(&mut s, col as u64);
    push_str(&mut s, ".");
    push_str(&mut s, ext);
    s
}

/// `/Map/<map>/alphamap_<row>_<col>.alp`: a PAL5 block's blend weights.
pub fn alpha_map_path(map: &str, row: u32, col: u32) -> (r: String)
    ensures
        r@ == "/Map/"@ + map@ + "/alphamap_"@ + decimal(row as nat) + "_"@ + decimal(col as nat) + ".alp"@,
{
    let mut s = String::new();
    push_str(&mut s, "/Map/");
    push_str(&mut s, map);
    push_str(&mut s, "/alphamap_");
    push_decimal(&mut s, row as u64);
    push_str(&mut s, "_");
    push_decimal(&mut s, col as u64);
    push_str(&mut s, ".alp");
    s
}

/// Rows and columns of a PAL5 map's block grid.
pub const MAX_MAP_BLOCK: u32 = 16;

/// Whether the presence grid marks block `(r, c)` as present; a cell
/// outside the grid is absent.
pub open spec fn present_at(g: Seq<Vec<bool>>, r: int, c: int) -> bool {
    0 <= r < g.len() && 0 <= c < g[r]@.len() && g[r]@[c]
}

/// The first column from `c` on whose block in row `r` is missing (the
/// grid's width when none is).
pub open spec fn row_extent(g: Seq<Vec<bool>>, r: int, c: int) -> int
    decreases MAX_MAP_BLOCK - c,
{
    if c >= MAX_MAP_BLOCK || !present_at(g, r, c) {
        c
    } else {
        row_extent(g, r, c + 1)
    }
}

/// The first row from `r` on whose first block is missing (the grid's
/// height when none is).
pub open spec fn first_missing_row(g: Seq<Vec<bool>>, r: int) -> int
    decreases MAX_MAP_BLOCK - r,
{
    if r >= MAX_MAP_BLOCK || !present_at(g, r, 0) {
        r
    } else {
        first_missing_row(g, r + 1)
    }
}

/// Blocks `(r, 0) .. (r, n - 1)`.
pub open spec fn row_blocks(r: int, n: int) -> Seq<(u32, u32)> {
    Seq::new(n as nat, |c: int| (r as u32, c as u32))
}

/// The blocks of rows `0 .. r`, each row from its first column up to its
/// first gap.
pub open spec fn blocks_before(g: Seq<Vec<bool>>, r: int) -> Seq<(u32, u32)>
    decreases r,
{
    if r <= 0 {
        Seq::empty()
    } else {
        blocks_before(g, r - 1) + row_blocks(r - 1, row_extent(g, r - 1, 0))
    }
}

/// The blocks of a map: row by row up to the first row whose first block
/// is missing, each row up to its first gap; `(0, 0)` alone when there
/// is none, so that reading it reports what is wrong.
pub open spec fn map_block_list(g: Seq<Vec<bool>>) -> Seq<(u32, u32)> {
    let b = blocks_before(g, first_missing_row(g, 0));
    if b.len() == 0 {
        seq![(0u32, 0u32)]
    } else {
        b
    }
}

fn block_present(present: &Vec<Vec<bool>>, r: u32, c: u32) -> (b: bool)
    ensures
        b == present_at(present@, r as int, c as int),
{
    let ru = r as usize;
    let cu = c as usize;
    ru < present.len() && cu < present[ru].len() && present[ru][cu]
}

/// The blocks of a PAL5 map, given which `<map>_<row>_<col>` files are
/// present (`present[row][col]`).
pub fn map_blocks(present: &Vec<Vec<bool>>) -> (r: Vec<(u32, u32)>)
    ensures
        r@ == map_block_list(present@),
{
    let ghost g = present@;
    let mut out: Vec<(u32, u32)> = Vec::new();
    let mut r: u32 = 0;
    while r < MAX_MAP_BLOCK
        invariant_except_break
            r <= MAX_MAP_BLOCK,
            out@ == blocks_before(g, r as int),
            first_missing_row(g, 0) == first_missing_row(g, r as int),
            g == present@,
        ensures
            out@ == blocks_before(g, first_missing_row(g, 0)),
        decreases MAX_MAP_BLOCK - r,
    {
        if !block_present(present, r, 0) {
            break;
        }
        out.push((r, 0));
        let mut c: u32 = 1;
        assert(out@ == blocks_before(g, r as int) + row_blocks(r as int, 1)) by {
            assert(row_blocks(r as int, 1) =~= seq![(r, 0u32)]);
        }
        while c < MAX_MAP_BLOCK
            invariant_except_break
                1 <= c <= MAX_MAP_BLOCK,
                r < MAX_MAP_BLOCK,
                out@ == blocks_before(g, r as int) + row_blocks(r as int, c as int),
                row_extent(g, r as int, 0) == row_extent(g, r as int, c as int),
                g == present@,
            ensures
                out@ == blocks_before(g, r as int) + row_blocks(r as int, row_extent(g, r as int, 0)),
            decreases MAX_MAP_BLOCK - c,
        {
            if !block_present(present, r, c) {
                break;
            }
            out.push((r, c));
            assert(row_blocks(r as int, c + 1) =~= row_blocks(r as int, c as int).push((r, c)));
            assert(out@ =~= blocks_before(g, r as int) + row_blocks(r as int, c + 1));
            c = c + 1;
        }
        r = r + 1;
    }
    if out.len() == 0 {
        out.push((0, 0));
        assert(out@ =~= seq![(0u32, 0u32)]);
    }
    out
}

/// `/Model/<path>` with backslashes turned into slashes: a PAL5 model.
pub fn model_path(path: &str) -> (r: String)
    ensures
        r@ == "/Model/"@ + forward_slashes(path@),
{
    let mut s = String::new();
    push_str(&mut s, "/Model/");
    push_slashed(&mut s, path);
    s
}

/// `/Sound/SoundDB/<id>.mp3`: an SWD5 sound.
pub fn swd5_sound_path(sound_id: i32) -> (r: String)
    ensures
        r@ == "/Sound/SoundDB/"@ + signed_decimal(sound_id as int) + ".mp3"@,
{
    let mut s = String::new();
    push_str(&mut s, "/Sound/SoundDB/");
    push_signed_decimal(&mut s, sound_id as i64);
    push_str(&mut s, ".mp3");
    s
}

/// `/Music/Music/<id>.mp3`: an SWD5 music track.
pub fn swd5_music_path(music_id: i32) -> (r: String)
    ensures
        r@ == "/Music/Music/"@ + signed_decimal(music_id as int) + ".mp3"@,
{
    let mut s = String::new();
    push_str(&mut s, "/Music/Music/");
    push_signed_decimal(&mut s, music_id as i64);
    push_str(&mut s, ".mp3");
    s
}

/// `width - len` zeros, or none when the text is already that long.
pub open spec fn zero_pad(len: nat, width: nat) -> Seq<char> {
    Seq::new(if len < width { (width - len) as nat } else { 0 }, |i: int| '0')
}

/// Appends `n` in decimal, padded with leading zeros to `width` digits.
fn push_padded(s: &mut String, n: u64, width: usize)
    ensures
        final(s)@ == old(s)@ + zero_pad(decimal(n as nat).len(), width as nat) + decimal(n as nat),
{
    let mut digits = String::new();
    push_decimal(&mut digits, n);
    let len = crate::text::chars_of(digits.as_str()).len();
    proof {
        assert(digits@ =~= decimal(n as nat));
    }
    let mut k: usize = len;
    proof {
        assert(s@ =~= old(s)@ + zero_pad(len as nat, k as nat));
    }
    while k < width
        invariant
            len == decimal(n as nat).len(),
            len <= k,
            k <= width || len > width,
            len > width ==> k == len,
            s@ == old(s)@ + zero_pad(len as nat, k as nat),
        decreases width - k,
    {
        push_char(s, '0');
        proof {
            assert(zero_pad(len as nat, (k + 1) as nat) =~= zero_pad(len as nat, k as nat).push('0'));
        }
        k = k + 1;
    }
    proof {
        if len < width {
            assert(k == width);
        } else {
            assert(zero_pad(len as nat, width as nat) =~= zero_pad(len as nat, k as nat));
        }
    }
    push_str(s, digits.as_str());
}

/// `/movie/movie<id>.bik`, the id with at least two digits: an SWD5 movie.
pub fn swd5_movie_path(movie_id: u32) -> (r: String)
    ensures
        r@ == "/movie/movie"@ + zero_pad(decimal(movie_id as nat).len(), 2) + decimal(movie_id as nat) + ".bik"@,
{
    let mut s = String::new();
    push_str(&mut s, "/movie/movie");
    push_padded(&mut s, movie_id as u64, 2);
    push_str(&mut s, ".bik");
    s
}

/// `/ACT/<index>.atp`, the index with at least eight digits: an SWD5
/// animation pack.
pub fn swd5_atp_path(index: u32) -> (r: String)
    ensures
        r@ == "/ACT/"@ + zero_pad(decimal(index as nat).len(), 8) + decimal(index as nat) + ".atp"@,
{
    let mut s = String::new();
    push_str(&mut s, "/ACT/");
    push_padded(&mut s, index as u64, 8);
    push_str(&mut s, ".atp");
    s
}

/// The SWD5-family games.
#[derive(Debug, Clone, Copy, PartialEq, Eq, Structural)]
pub enum Swd5Game {
    Swd5,
    SwdHc,
    SwdCf,
}

/// The path of each game's main script.
pub fn main_script_path(game: Swd5Game) -> (r: &'static str)
    ensures
        game == Swd5Game::Swd5 ==> r@ == "/Script/0000.C01"@,
        game == Swd5Game::SwdHc ==> r@ == "/Text/main/0000.C01"@,
        game == Swd5Game::SwdCf ==> r@ == "/Text/Off_Line/main/0000.C01"@,
{
    match game {
        Swd5Game::Swd5 => "/Script/0000.C01",
        Swd5Game::SwdHc => "/Text/main/0000.C01",
        Swd5Game::SwdCf => "/Text/Off_Line/main/0000.C01",
    }
}

} // verus!
