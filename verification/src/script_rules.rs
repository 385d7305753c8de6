//! Small rules of the PAL4 script host functions: the entry function a
//! loaded arena runs, which talk lines have a voice, and which movies carry
//! black bars.
use vstd::prelude::*;

use crate::text::{chars_of, push_str, spec_lowercase, str_eq, to_lowercase};

verus! {

/// `<scene>_<block>_init`: the function a freshly loaded arena runs.
pub fn arena_init_function(scene: &str, block: &str) -> (r: String)
    ensures
        r@ == scene@ + "_"@ + block@ + "_init"@,
{
    let mut s = String::new();
    push_str(&mut s, scene);
    push_str(&mut s, "_");
    push_str(&mut s, block);
    push_str(&mut s, "_init");
    s
}

/// Bytes a character takes in UTF-8.
pub open spec fn utf8_width(c: char) -> nat {
    let u = c as u32;
    if u < 0x80 { 1 } else if u < 0x800 { 2 } else if u < 0x10000 { 3 } else { 4 }
}

/// Bytes a text takes in UTF-8 (`str::len`).
pub open spec fn utf8_len(s: Seq<char>) -> nat
    decreases s.len(),
{
    if s.len() == 0 {
        0
    } else {
        utf8_len(s.drop_last()) + utf8_width(s.last())
    }
}

/// A talk line is voiced when its voice name is five bytes long and
/// starts with `4`.
pub open spec fn is_voice_name(name: Seq<char>) -> bool {
    utf8_len(name) == 5 && name.len() > 0 && name[0] == '4'
}

pub fn voice_line(voice_name: &str) -> (r: bool)
    ensures
        r == is_voice_name(voice_name@),
{
    let cs = chars_of(voice_name);
    let mut bytes: usize = 0;
    let mut i: usize = 0;
    while i < cs.len()
        invariant
            i <= cs.len(),
            cs@ == voice_name@,
            bytes == utf8_len(cs@.take(i as int)),
            bytes <= 9,
        decreases cs.len() - i,
    {
        if bytes > 5 {
            proof {
                lemma_utf8_len_grows(cs@, i as int);
                assert(cs@.take(cs.len() as int) =~= cs@);
            }
            return false;
        }
        let u = cs[i] as u32;
        let w: usize = if u < 0x80 {
            1
        } else if u < 0x800 {
            2
        } else if u < 0x10000 {
            3
        } else {
            4
        };
        proof {
            assert(cs@.take(i + 1).drop_last() =~= cs@.take(i as int));
        }
        bytes = bytes + w;
        i = i + 1;
    }
    proof {
        assert(cs@.take(cs.len() as int) =~= cs@);
    }
    bytes == 5 && cs.len() > 0 && cs[0] == '4'
}

proof fn lemma_utf8_len_grows(s: Seq<char>, i: int)
    requires
        0 <= i <= s.len(),
    ensures
        utf8_len(s.take(i)) <= utf8_len(s),
    decreases s.len() - i,
{
    if i < s.len() {
        lemma_utf8_len_grows(s.drop_last(), i);
        assert(s.drop_last().take(i) =~= s.take(i));
    } else {
        assert(s.take(i) =~= s);
    }
}

/// Movies whose frames carry black bars, which playback crops away.
pub open spec fn has_black_bars(movie: Seq<char>) -> bool {
    spec_lowercase(movie) == "pal4a.bik"@
}

pub fn movie_has_black_bars(movie: &str) -> (r: bool)
    ensures
        r == has_black_bars(movie@),
{
    let lower = to_lowercase(movie);
    str_eq(lower.as_str(), "pal4a.bik")
}

} // verus!
