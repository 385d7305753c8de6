//! PAL5 game-script index: `scriptlist.ini` maps a numeric script id to a
//! script name, grouped by `[section]`. The source of a script lives at
//! `/script/<name>.lua` for the root section `[.]` and at
//! `/script/<section>/<name>.lua` otherwise; its entry function shares
//! the file stem.
use vstd::prelude::*;

use std::collections::HashMap;

use encoding::Encoding;

use crate::text::{chars_of, push_range, push_str};

verus! {

broadcast use vstd::std_specs::hash::group_hash_axioms;

/// One script of the index.
#[derive(Clone, Debug)]
pub struct ScriptEntry {
    /// Entry function name (the file stem, e.g. `m001_1`).
    pub name: String,
    /// Path of the script source, e.g. `/script/mainline/m001_1.lua`.
    pub vfs_path: String,
}

/// Script entries by id.
pub struct ScriptIndex {
    by_id: HashMap<u32, ScriptEntry>,
}

/// An entry as plain text: its name and its path.
pub open spec fn entry_view(e: ScriptEntry) -> (Seq<char>, Seq<char>) {
    (e.name@, e.vfs_path@)
}

impl View for ScriptIndex {
    type V = Map<u32, (Seq<char>, Seq<char>)>;

    closed spec fn view(&self) -> Map<u32, (Seq<char>, Seq<char>)> {
        self.by_id@.map_values(|e: ScriptEntry| entry_view(e))
    }
}

/// Unicode white space, as `char::is_whitespace` and `str::trim` define it.
pub open spec fn is_ws(c: char) -> bool {
    let u = c as u32;
    ||| 0x09 <= u <= 0x0D
    ||| u == 0x20
    ||| u == 0x85
    ||| u == 0xA0
    ||| u == 0x1680
    ||| 0x2000 <= u <= 0x200A
    ||| u == 0x2028
    ||| u == 0x2029
    ||| u == 0x202F
    ||| u == 0x205F
    ||| u == 0x3000
}

pub open spec fn trim_start(s: Seq<char>) -> Seq<char>
    decreases s.len(),
{
    if s.len() > 0 && is_ws(s[0]) {
        trim_start(s.drop_first())
    } else {
        s
    }
}

pub open spec fn trim_end(s: Seq<char>) -> Seq<char>
    decreases s.len(),
{
    if s.len() > 0 && is_ws(s.last()) {
        trim_end(s.drop_last())
    } else {
        s
    }
}

/// `s` without leading and trailing white space.
pub open spec fn trim(s: Seq<char>) -> Seq<char> {
    trim_end(trim_start(s))
}

/// Index of the first `c` in `s`, or the length of `s` when there is none.
pub open spec fn first_index_of(s: Seq<char>, c: char) -> int
    decreases s.len(),
{
    if s.len() == 0 {
        0
    } else if s[0] == c {
        0
    } else {
        1 + first_index_of(s.drop_first(), c)
    }
}

pub open spec fn is_digit(c: char) -> bool {
    '0' <= c <= '9'
}

/// The number that a string of decimal digits spells.
pub open spec fn digits_value(s: Seq<char>) -> nat
    decreases s.len(),
{
    if s.len() == 0 {
        0
    } else {
        digits_value(s.drop_last()) * 10 + (s.last() as nat - '0' as nat) as nat
    }
}

/// The value of a string of decimal digits, when it is one and the value
/// fits in a `u32`.
pub open spec fn u32_of_digits(d: Seq<char>) -> Option<u32> {
    if d.len() > 0 && (forall|i: int| 0 <= i < d.len() ==> #[trigger] is_digit(d[i])) && digits_value(d) <= u32::MAX {
        Some(digits_value(d) as u32)
    } else {
        None
    }
}

/// What `u32::from_str` makes of `s`: an optional `+`, then the digits.
pub open spec fn u32_of_text(s: Seq<char>) -> Option<u32> {
    u32_of_digits(if s.len() > 0 && s[0] == '+' { s.drop_first() } else { s })
}

pub open spec fn root_section() -> Seq<char> {
    seq!['.']
}

/// Path of the script `name` in `section`.
pub open spec fn script_path(section: Seq<char>, name: Seq<char>) -> Seq<char> {
    let lua = seq!['.', 'l', 'u', 'a'];
    let root = seq!['/', 's', 'c', 'r', 'i', 'p', 't', '/'];
    if section == root_section() {
        root + name + lua
    } else {
        root + section + seq!['/'] + name + lua
    }
}

/// Parser state: the current section and the entries read so far.
pub struct IniState {
    pub section: Seq<char>,
    pub entries: Map<u32, (Seq<char>, Seq<char>)>,
}

pub open spec fn initial_state() -> IniState {
    IniState { section: root_section(), entries: Map::empty() }
}

/// The effect of one line. Blank lines and lines starting with `;` or
/// `//` are ignored; `[name]` opens a section; `id = name` adds an entry,
/// the name ending at the first `;`. Lines without `=`, ids that are not
/// numbers, and empty names are ignored. A repeated id keeps the last
/// entry.
pub open spec fn apply_line(st: IniState, raw: Seq<char>) -> IniState {
    let line = trim(raw);
    let n = line.len() as int;
    if n == 0 || line[0] == ';' || (n >= 2 && line[0] == '/' && line[1] == '/') {
        st
    } else if n >= 2 && line[0] == '[' && line[n - 1] == ']' {
        IniState { section: trim(line.subrange(1, n - 1)), ..st }
    } else {
        let eq = first_index_of(line, '=');
        if eq == n {
            st
        } else {
            let rest = trim(line.subrange(eq + 1, n));
            let name = trim(rest.subrange(0, first_index_of(rest, ';')));
            match u32_of_text(trim(line.subrange(0, eq))) {
                Some(id) => if name.len() == 0 {
                    st
                } else {
                    IniState { entries: st.entries.insert(id, (name, script_path(st.section, name))), ..st }
                },
                None => st,
            }
        }
    }
}

/// The state after the given lines, in order.
pub open spec fn apply_lines(lines: Seq<Seq<char>>) -> IniState
    decreases lines.len(),
{
    if lines.len() == 0 {
        initial_state()
    } else {
        apply_line(apply_lines(lines.drop_last()), lines.last())
    }
}

/// `text` cut at each newline (the newlines dropped).
pub open spec fn split_lines(text: Seq<char>) -> Seq<Seq<char>>
    decreases text.len(),
{
    if text.len() == 0 {
        seq![Seq::empty()]
    } else {
        let ls = split_lines(text.drop_last());
        if text.last() == '\n' {
            ls.push(Seq::empty())
        } else {
            ls.update(ls.len() - 1, ls.last().push(text.last()))
        }
    }
}

/// The entries that `scriptlist.ini` text defines. (A carriage return
/// before a newline is white space, and an empty last line is ignored, so
/// this is the same as reading the text by `str::lines`.)
pub open spec fn scriptlist_entries(text: Seq<char>) -> Map<u32, (Seq<char>, Seq<char>)> {
    apply_lines(split_lines(text)).entries
}

proof fn lemma_split_lines_nonempty(text: Seq<char>)
    ensures
        split_lines(text).len() >= 1,
    decreases text.len(),
{
    if text.len() > 0 {
        lemma_split_lines_nonempty(text.drop_last());
    }
}

proof fn lemma_trim_start_skip(s: Seq<char>, k: int)
    requires
        0 <= k <= s.len(),
        forall|j: int| 0 <= j < k ==> #[trigger] is_ws(s[j]),
    ensures
        trim_start(s) == trim_start(s.subrange(k, s.len() as int)),
    decreases k,
{
    if k == 0 {
        assert(s.subrange(0, s.len() as int) =~= s);
    } else {
        let t = s.drop_first();
        assert(is_ws(s[0]));
        assert forall|j: int| 0 <= j < k - 1 implies #[trigger] is_ws(t[j]) by {
            assert(is_ws(s[j + 1]));
        }
        lemma_trim_start_skip(t, k - 1);
        assert(t.subrange(k - 1, t.len() as int) =~= s.subrange(k, s.len() as int));
    }
}

proof fn lemma_trim_end_skip(s: Seq<char>, k: int)
    requires
        0 <= k <= s.len(),
        forall|j: int| k <= j < s.len() ==> #[trigger] is_ws(s[j]),
    ensures
        trim_end(s) == trim_end(s.subrange(0, k)),
    decreases s.len() - k,
{
    if k == s.len() {
        assert(s.subrange(0, k) =~= s);
    } else {
        let t = s.drop_last();
        assert(is_ws(s[s.len() - 1]));
        lemma_trim_end_skip(t, k);
        assert(t.subrange(0, k) =~= s.subrange(0, k));
    }
}

proof fn lemma_first_index(s: Seq<char>, c: char, i: int)
    requires
        0 <= i <= s.len(),
        forall|j: int| 0 <= j < i ==> #[trigger] s[j] != c,
        i == s.len() || s[i] == c,
    ensures
        first_index_of(s, c) == i,
    decreases i,
{
    if i > 0 {
        let t = s.drop_first();
        assert(s[0] != c);
        assert forall|j: int| 0 <= j < i - 1 implies #[trigger] t[j] != c by {
            assert(s[j + 1] != c);
        }
        lemma_first_index(t, c, i - 1);
    }
}

proof fn lemma_digits_value_grows(s: Seq<char>, i: int)
    requires
        0 <= i <= s.len(),
    ensures
        digits_value(s.take(i)) <= digits_value(s),
    decreases s.len() - i,
{
    if i < s.len() {
        lemma_digits_value_grows(s.drop_last(), i);
        assert(s.drop_last().take(i) =~= s.take(i));
        assert(s.take(s.len() as int) =~= s);
    } else {
        assert(s.take(i) =~= s);
    }
}

/// Whether `c` is Unicode white space.
pub fn is_ws_char(c: char) -> (r: bool)
    ensures
        r == is_ws(c),
{
    let u = c as u32;
    (0x09 <= u && u <= 0x0D) || u == 0x20 || u == 0x85 || u == 0xA0 || u == 0x1680 || (0x2000 <= u && u
        <= 0x200A) || u == 0x2028 || u == 0x2029 || u == 0x202F || u == 0x205F || u == 0x3000
}

/// Bounds of `v[lo..hi]` with leading and trailing white space removed.
pub(crate) fn trim_chars(v: &Vec<char>, lo: usize, hi: usize) -> (r: (usize, usize))
    requires
        lo <= hi <= v.len(),
    ensures
        lo <= r.0 <= r.1 <= hi,
        v@.subrange(r.0 as int, r.1 as int) == trim(v@.subrange(lo as int, hi as int)),
{
    let ghost s = v@.subrange(lo as int, hi as int);
    let mut a = lo;
    while a < hi && is_ws_char(v[a])
        invariant
            lo <= a <= hi <= v.len(),
            s == v@.subrange(lo as int, hi as int),
            forall|j: int| lo <= j < a ==> #[trigger] is_ws(v@[j]),
        decreases hi - a,
    {
        a = a + 1;
    }
    proof {
        assert forall|j: int| 0 <= j < a - lo implies #[trigger] is_ws(s[j]) by {
            assert(s[j] == v@[lo + j]);
        }
        lemma_trim_start_skip(s, a - lo);
        assert(s.subrange(a - lo, s.len() as int) =~= v@.subrange(a as int, hi as int));
        if a < hi {
            assert(!is_ws(v@[a as int]));
        }
        assert(trim_start(v@.subrange(a as int, hi as int)) == v@.subrange(a as int, hi as int));
    }
    let ghost t = v@.subrange(a as int, hi as int);
    let mut b = hi;
    while b > a && is_ws_char(v[b - 1])
        invariant
            lo <= a <= b <= hi <= v.len(),
            t == v@.subrange(a as int, hi as int),
            forall|j: int| b <= j < hi ==> #[trigger] is_ws(v@[j]),
        decreases b - a,
    {
        b = b - 1;
    }
    proof {
        assert forall|j: int| b - a <= j < t.len() implies #[trigger] is_ws(t[j]) by {
            assert(t[j] == v@[a + j]);
        }
        lemma_trim_end_skip(t, b - a);
        assert(t.subrange(0, b - a) =~= v@.subrange(a as int, b as int));
        if b > a {
            assert(!is_ws(v@[b - 1]));
        }
        assert(trim_end(v@.subrange(a as int, b as int)) == v@.subrange(a as int, b as int));
    }
    (a, b)
}

/// Position of the first `c` in `v[lo..hi]`, or `hi` when there is none.
fn find_char(v: &Vec<char>, lo: usize, hi: usize, c: char) -> (r: usize)
    requires
        lo <= hi <= v.len(),
    ensures
        lo <= r <= hi,
        r - lo == first_index_of(v@.subrange(lo as int, hi as int), c),
{
    let mut i = lo;
    while i < hi && v[i] != c
        invariant
            lo <= i <= hi <= v.len(),
            forall|j: int| lo <= j < i ==> #[trigger] v@[j] != c,
        decreases hi - i,
    {
        i = i + 1;
    }
    proof {
        let s = v@.subrange(lo as int, hi as int);
        assert forall|j: int| 0 <= j < i - lo implies #[trigger] s[j] != c by {
            assert(s[j] == v@[lo + j]);
        }
        lemma_first_index(s, c, i - lo);
    }
    i
}

/// `u32::from_str` on `v[lo..hi]`.
pub(crate) fn parse_u32(v: &Vec<char>, lo: usize, hi: usize) -> (r: Option<u32>)
    requires
        lo <= hi <= v.len(),
    ensures
        r == u32_of_text(v@.subrange(lo as int, hi as int)),
{
    let ghost s = v@.subrange(lo as int, hi as int);
    let start = if lo < hi && v[lo] == '+' {
        lo + 1
    } else {
        lo
    };
    let ghost d = v@.subrange(start as int, hi as int);
    proof {
        if lo < hi && v@[lo as int] == '+' {
            assert(s.drop_first() =~= d);
        } else {
            assert(s =~= d);
        }
        assert(d == (if s.len() > 0 && s[0] == '+' { s.drop_first() } else { s }));
    }
    if start == hi {
        return None;
    }
    let mut acc: u64 = 0;
    let mut i = start;
    while i < hi
        invariant
            start <= i <= hi <= v.len(),
            d == v@.subrange(start as int, hi as int),
            s == v@.subrange(lo as int, hi as int),
            d == (if s.len() > 0 && s[0] == '+' { s.drop_first() } else { s }),
            forall|j: int| start <= j < i ==> #[trigger] is_digit(v@[j]),
            acc == digits_value(d.take(i - start)),
            acc <= u32::MAX,
        decreases hi - i,
    {
        let c = v[i];
        if !('0' <= c && c <= '9') {
            proof {
                assert(!is_digit(d[i - start]));
                assert(u32_of_digits(d) is None);
            }
            return None;
        }
        let digit = (c as u32 - '0' as u32) as u64;
        proof {
            assert(d.take(i - start + 1).drop_last() =~= d.take(i - start));
            assert(d.take(i - start + 1).last() == c);
        }
        let next = acc * 10 + digit;
        if next > u32::MAX as u64 {
            proof {
                lemma_digits_value_grows(d, i - start + 1);
                assert(u32_of_digits(d) is None);
            }
            return None;
        }
        acc = next;
        i = i + 1;
    }
    proof {
        assert(d.take(d.len() as int) =~= d);
        assert forall|j: int| 0 <= j < d.len() implies #[trigger] is_digit(d[j]) by {
            assert(d[j] == v@[start + j]);
        }
    }
    Some(acc as u32)
}

impl ScriptIndex {
    /// Applies one line, `v[lo..hi]`, to the parser state.
    fn apply_line_exec(v: &Vec<char>, lo: usize, hi: usize, section: &mut Vec<char>, by_id: &mut HashMap<u32, ScriptEntry>)
        requires
            lo <= hi <= v.len(),
        ensures
            ({
                let after = apply_line(
                    IniState { section: old(section)@, entries: old(by_id)@.map_values(|e: ScriptEntry| entry_view(e)) },
                    v@.subrange(lo as int, hi as int),
                );
                final(section)@ == after.section && final(by_id)@.map_values(|e: ScriptEntry| entry_view(e)) == after.entries
            }),
    {
        let ghost raw = v@.subrange(lo as int, hi as int);
        let (a, b) = trim_chars(v, lo, hi);
        let ghost line = v@.subrange(a as int, b as int);
        proof {
            assert(line == trim(raw));
        }
        let n = b - a;
        if n == 0 || v[a] == ';' || (n >= 2 && v[a] == '/' && v[a + 1] == '/') {
            return;
        }
        if n >= 2 && v[a] == '[' && v[b - 1] == ']' {
            let (sa, sb) = trim_chars(v, a + 1, b - 1);
            proof {
                assert(line.subrange(1, n - 1) =~= v@.subrange(a + 1, b - 1));
            }
            let mut sec: Vec<char> = Vec::new();
            let mut i = sa;
            while i < sb
                invariant
                    sa <= i <= sb <= v.len(),
                    sec@ == v@.subrange(sa as int, i as int),
                decreases sb - i,
            {
                sec.push(v[i]);
                proof {
                    assert(v@.subrange(sa as int, i + 1) =~= v@.subrange(sa as int, i as int).push(v@[i as int]));
                }
                i = i + 1;
            }
            *section = sec;
            return;
        }
        let eq = find_char(v, a, b, '=');
        if eq == b {
            return;
        }
        let (ra, rb) = trim_chars(v, eq + 1, b);
        let semi = find_char(v, ra, rb, ';');
        let (na, nb) = trim_chars(v, ra, semi);
        let (ia, ib) = trim_chars(v, a, eq);
        proof {
            assert(line.subrange(eq - a + 1, n as int) =~= v@.subrange(eq + 1, b as int));
            assert(line.subrange(0, eq - a) =~= v@.subrange(a as int, eq as int));
            let rest = v@.subrange(ra as int, rb as int);
            assert(rest.subrange(0, semi - ra) =~= v@.subrange(ra as int, semi as int));
        }
        let id = match parse_u32(v, ia, ib) {
            Some(id) => id,
            None => {
                return;
            },
        };
        if na == nb {
            return;
        }
        let mut name = String::new();
        push_range(&mut name, v, na, nb);
        let mut path = String::new();
        push_str(&mut path, "/script/");
        let is_root = section.len() == 1 && section[0] == '.';
        proof {
            if section@.len() == 1 && section@[0] == '.' {
                assert(section@ =~= root_section());
            }
        }
        if !is_root {
            let mut i: usize = 0;
            while i < section.len()
                invariant
                    i <= section.len(),
                    path@ == "/script/"@ + section@.take(i as int),
                decreases section.len() - i,
            {
                crate::text::push_char(&mut path, section[i]);
                proof {
                    assert(section@.take(i + 1) =~= section@.take(i as int).push(section@[i as int]));
                }
                i = i + 1;
            }
            proof {
                assert(section@.take(section.len() as int) =~= section@);
            }
            push_str(&mut path, "/");
        }
        push_range(&mut path, v, na, nb);
        push_str(&mut path, ".lua");
        proof {
            reveal_strlit("/script/");
            reveal_strlit("/");
            reveal_strlit(".lua");
            assert(path@ =~= script_path(section@, name@));
        }
        let ghost old_map = by_id@;
        by_id.insert(id, ScriptEntry { name, vfs_path: path });
        proof {
            assert(by_id@.map_values(|e: ScriptEntry| entry_view(e)) =~= old_map.map_values(
                |e: ScriptEntry| entry_view(e),
            ).insert(id, (name@, path@)));
        }
    }

    /// Parses `scriptlist.ini` text.
    pub fn parse(text: &str) -> (r: Self)
        ensures
            r@ == scriptlist_entries(text@),
    {
        let v = chars_of(text);
        let mut section: Vec<char> = Vec::new();
        section.push('.');
        let mut by_id: HashMap<u32, ScriptEntry> = HashMap::new();
        let ghost mut done: Seq<Seq<char>> = Seq::empty();
        proof {
            assert(section@ =~= root_section());
            assert(by_id@.map_values(|e: ScriptEntry| entry_view(e)) =~= Map::<u32, (Seq<char>, Seq<char>)>::empty());
            assert(v@.take(0) =~= Seq::<char>::empty());
        }
        let mut start: usize = 0;
        let mut i: usize = 0;
        while i < v.len()
            invariant
                start <= i <= v.len(),
                split_lines(v@.take(i as int)) == done.push(v@.subrange(start as int, i as int)),
                apply_lines(done).section == section@,
                apply_lines(done).entries == by_id@.map_values(|e: ScriptEntry| entry_view(e)),
            decreases v.len() - i,
        {
            proof {
                assert(v@.take(i + 1).drop_last() =~= v@.take(i as int));
                assert(v@.take(i + 1).last() == v@[i as int]);
            }
            if v[i] == '\n' {
                Self::apply_line_exec(&v, start, i, &mut section, &mut by_id);
                proof {
                    let cur = v@.subrange(start as int, i as int);
                    assert(done.push(cur).drop_last() =~= done);
                    done = done.push(cur);
                    assert(v@.subrange(i + 1, i + 1) =~= Seq::<char>::empty());
                }
                start = i + 1;
            } else {
                proof {
                    let ls = done.push(v@.subrange(start as int, i as int));
                    assert(v@.subrange(start as int, i as int).push(v@[i as int]) =~= v@.subrange(start as int, i + 1));
                    assert(ls.update(ls.len() - 1, ls.last().push(v@[i as int])) =~= done.push(
                        v@.subrange(start as int, i + 1),
                    ));
                }
            }
            i = i + 1;
        }
        Self::apply_line_exec(&v, start, v.len(), &mut section, &mut by_id);
        proof {
            assert(v@.take(v.len() as int) =~= v@);
            let cur = v@.subrange(start as int, v.len() as int);
            assert(done.push(cur).drop_last() =~= done);
        }
        ScriptIndex { by_id }
    }

    pub fn entry(&self, id: u32) -> (r: Option<&ScriptEntry>)
        ensures
            r matches Some(e) ==> self@.contains_key(id) && self@[id] == entry_view(*e),
            r is None ==> !self@.contains_key(id),
    {
        self.by_id.get(&id)
    }
}

/// The text that `encoding::all::GBK.decode(raw, DecoderTrap::Replace)`
/// gives for `raw`, or `None` where it reports an error.
pub uninterp spec fn gbk_decode_replace(raw: Seq<u8>) -> Option<Seq<char>>;

/// The text that `String::from_utf8_lossy` gives for `raw`.
pub uninterp spec fn utf8_lossy(raw: Seq<u8>) -> Seq<char>;

/// Decodes GBK bytes, replacing undecodable sequences
/// (`encoding::all::GBK.decode` with `DecoderTrap::Replace`).
#[verifier::external_body]
fn decode_gbk(raw: &[u8]) -> (r: Option<String>)
    ensures
        r matches Some(t) ==> gbk_decode_replace(raw@) == Some(t@),
        r is None ==> gbk_decode_replace(raw@) is None,
{
    encoding::all::GBK.decode(raw, encoding::DecoderTrap::Replace).ok()
}

/// Decodes bytes as UTF-8, replacing invalid sequences
/// (`String::from_utf8_lossy`).
#[verifier::external_body]
pub(crate) fn decode_utf8_lossy(raw: &[u8]) -> (r: String)
    ensures
        r@ == utf8_lossy(raw@),
{
    String::from_utf8_lossy(raw).into_owned()
}

/// The text of a `scriptlist.ini` file: GBK, or UTF-8 where GBK decoding
/// reports an error.
pub open spec fn scriptlist_text(raw: Seq<u8>) -> Seq<char> {
    match gbk_decode_replace(raw) {
        Some(t) => t,
        None => utf8_lossy(raw),
    }
}

impl ScriptIndex {
    /// Index of the raw bytes of `scriptlist.ini`.
    pub fn from_scriptlist(raw: &[u8]) -> (r: Self)
        ensures
            r@ == scriptlist_entries(scriptlist_text(raw@)),
    {
        let text = match decode_gbk(raw) {
            Some(t) => t,
            None => decode_utf8_lossy(raw),
        };
        Self::parse(text.as_str())
    }
}

} // verus!
