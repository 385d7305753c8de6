//! SWD5-family decisions: the host functions that an agent may call by
//! name, the message that refuses the others, the dialog an observer is
//! shown, and the agent commands this game layer serves or refuses.
use vstd::prelude::*;

use crate::agent_routing::AgentCommandKind;
use crate::text::{push_str, str_eq};

use encoding::Encoding;

verus! {

/// The host functions an agent may call by name: pure state changes that
/// never resume the suspended script.
#[derive(Debug, Clone, Copy, PartialEq, Eq, Structural)]
pub enum Swd5HostFn {
    ChangMap,
    StoryMusic,
    StoryMusicOff,
    PlaySound,
    StopSound,
    PlayMovie,
    OpenStoryPic,
    CloseStoryPic,
    Dark,
    Undark,
}

pub open spec fn host_fn_name(f: Swd5HostFn) -> Seq<char> {
    match f {
        Swd5HostFn::ChangMap => "chang_map"@,
        Swd5HostFn::StoryMusic => "story_music"@,
        Swd5HostFn::StoryMusicOff => "story_music_off"@,
        Swd5HostFn::PlaySound => "play_sound"@,
        Swd5HostFn::StopSound => "stop_sound"@,
        Swd5HostFn::PlayMovie => "play_movie"@,
        Swd5HostFn::OpenStoryPic => "openstorypic"@,
        Swd5HostFn::CloseStoryPic => "closestorypic"@,
        Swd5HostFn::Dark => "dark"@,
        Swd5HostFn::Undark => "undark"@,
    }
}

/// The allow-list, in order.
pub open spec fn allow_list() -> Seq<Seq<char>> {
    seq![
        "chang_map"@,
        "story_music"@,
        "story_music_off"@,
        "play_sound"@,
        "stop_sound"@,
        "play_movie"@,
        "openstorypic"@,
        "closestorypic"@,
        "dark"@,
        "undark"@,
    ]
}

/// The items of `s` separated by `sep`.
pub open spec fn join_with(s: Seq<Seq<char>>, sep: Seq<char>) -> Seq<char>
    decreases s.len(),
{
    if s.len() == 0 {
        Seq::empty()
    } else if s.len() == 1 {
        s[0]
    } else {
        join_with(s.drop_last(), sep) + sep + s.last()
    }
}

/// The message that refuses a call of `function`, listing the allow-list.
pub open spec fn rejection_text(function: Seq<char>) -> Seq<char> {
    "'"@ + function + "' is not in the SWD5 script_eval allow-list ("@ + join_with(allow_list(), ", "@) + ")"@
}

/// The names of the allowed host functions, in order.
pub fn eval_allow_list() -> (r: Vec<&'static str>)
    ensures
        r@.len() == allow_list().len(),
        forall|i: int| 0 <= i < r@.len() ==> #[trigger] r@[i]@ == allow_list()[i],
{
    let mut v: Vec<&'static str> = Vec::new();
    v.push("chang_map");
    v.push("story_music");
    v.push("story_music_off");
    v.push("play_sound");
    v.push("stop_sound");
    v.push("play_movie");
    v.push("openstorypic");
    v.push("closestorypic");
    v.push("dark");
    v.push("undark");
    v
}

/// The host function an allowed name calls, or `None` for a name off the
/// allow-list.
pub fn eval_host_fn(function: &str) -> (r: Option<Swd5HostFn>)
    ensures
        r matches Some(f) ==> host_fn_name(f) == function@,
        r is None <==> !allow_list().contains(function@),
{
    let names = eval_allow_list();
    let mut i: usize = 0;
    while i < names.len()
        invariant
            i <= names@.len(),
            names@.len() == allow_list().len(),
            forall|k: int| 0 <= k < names@.len() ==> #[trigger] names@[k]@ == allow_list()[k],
            forall|k: int| 0 <= k < i ==> allow_list()[k] != function@,
        decreases names.len() - i,
    {
        if str_eq(names[i], function) {
            let f = if i == 0 {
                Swd5HostFn::ChangMap
            } else if i == 1 {
                Swd5HostFn::StoryMusic
            } else if i == 2 {
                Swd5HostFn::StoryMusicOff
            } else if i == 3 {
                Swd5HostFn::PlaySound
            } else if i == 4 {
                Swd5HostFn::StopSound
            } else if i == 5 {
                Swd5HostFn::PlayMovie
            } else if i == 6 {
                Swd5HostFn::OpenStoryPic
            } else if i == 7 {
                Swd5HostFn::CloseStoryPic
            } else if i == 8 {
                Swd5HostFn::Dark
            } else {
                Swd5HostFn::Undark
            };
            proof {
                assert(allow_list()[i as int] == function@);
                assert(allow_list().contains(function@));
            }
            return Some(f);
        }
        i = i + 1;
    }
    proof {
        if allow_list().contains(function@) {
            let k = choose|k: int| 0 <= k < allow_list().len() && allow_list()[k] == function@;
            assert(allow_list()[k] != function@);
        }
    }
    None
}

/// The message that refuses a call of `function`.
pub fn eval_rejection_message(function: &str) -> (r: String)
    ensures
        r@ == rejection_text(function@),
{
    let names = eval_allow_list();
    let mut s = String::new();
    push_str(&mut s, "'");
    push_str(&mut s, function);
    push_str(&mut s, "' is not in the SWD5 script_eval allow-list (");
    let ghost base = s@;
    let mut i: usize = 0;
    while i < names.len()
        invariant
            i <= names@.len(),
            names@.len() == allow_list().len(),
            forall|k: int| 0 <= k < names@.len() ==> #[trigger] names@[k]@ == allow_list()[k],
            s@ == base + join_with(allow_list().take(i as int), ", "@),
        decreases names.len() - i,
    {
        let ghost before = s@;
        if i > 0 {
            push_str(&mut s, ", ");
        }
        push_str(&mut s, names[i]);
        proof {
            let t = allow_list().take(i + 1);
            assert(t.drop_last() =~= allow_list().take(i as int));
            assert(t.last() == allow_list()[i as int]);
            if i == 0 {
                assert(join_with(t, ", "@) == allow_list()[0]);
                assert(join_with(allow_list().take(0), ", "@) =~= Seq::<char>::empty());
                assert(s@ =~= base + join_with(t, ", "@));
            } else {
                assert(s@ =~= base + join_with(t, ", "@));
            }
        }
        i = i + 1;
    }
    push_str(&mut s, ")");
    proof {
        assert(allow_list().take(allow_list().len() as int) =~= allow_list());
    }
    s
}

/// The live message box as `(speaker, text)`: a talk message, which has
/// a speaker, before a plain story message, which has none.
pub fn dialog_text(talk: Option<(String, String)>, story: Option<String>) -> (r: Option<(String, String)>)
    ensures
        talk matches Some(t) ==> r == Some(t),
        talk is None ==> (story matches Some(text) ==> (r matches Some(p) && p.0@.len() == 0 && p.1 == text)),
        talk is None && story is None ==> r is None,
{
    match talk {
        Some(t) => Some(t),
        None => match story {
            Some(text) => Some((String::new(), text)),
            None => None,
        },
    }
}

/// What an observer is shown of the dialog. SWD5 has no portrait side, so
/// the avatar is the speaker's name, and no select-dialog, so there are
/// never choices.
pub struct Swd5DialogSnapshot {
    pub open: bool,
    pub text: String,
    pub avatar: String,
    pub choices: Vec<String>,
}

pub fn dialog_snapshot(text: Option<(String, String)>) -> (r: Swd5DialogSnapshot)
    ensures
        text matches Some(p) ==> r.open && r.avatar == p.0 && r.text == p.1,
        text is None ==> !r.open && r.text@.len() == 0 && r.avatar@.len() == 0,
        r.choices@.len() == 0,
{
    match text {
        Some((speaker, text)) => Swd5DialogSnapshot { open: true, text, avatar: speaker, choices: Vec::new() },
        None => Swd5DialogSnapshot { open: false, text: String::new(), avatar: String::new(), choices: Vec::new() },
    }
}

/// How the SWD5-family dispatcher treats a command kind.
pub enum Swd5Route {
    /// Served by the dispatcher.
    Serve,
    /// Must not reach the queue; an internal error.
    Internal(&'static str),
    /// Refused: nothing in this game layer backs it.
    NotImplemented(&'static str),
}

pub open spec fn refusal_text(kind: AgentCommandKind) -> Option<Seq<char>> {
    match kind {
        AgentCommandKind::SaveSlot | AgentCommandKind::EnterNewGame | AgentCommandKind::EnterLoadGame
        | AgentCommandKind::LoadSlot => Some(
            "SWD5 family has no save format support and boots straight into a single bootstrap script (no menu mode), so save/load and mode control have nothing to drive"@,
        ),
        AgentCommandKind::ExitGame => Some("SWD5 family has no menu mode to exit to"@),
        AgentCommandKind::ChooseDialog => Some(
            "SWD5-family message boxes (storymsg / talkmsg) are free-form text with no choice list; use /v1/dialog/advance instead"@,
        ),
        AgentCommandKind::ChooseWorldMap => Some("SWD5 family has no world-map prompt"@),
        AgentCommandKind::GetSceneTriggers | AgentCommandKind::FireSceneTrigger => Some(
            "SWD5-family maps carry no EVF-equivalent trigger volumes; the Lua script drives all transitions directly"@,
        ),
        AgentCommandKind::GetSceneObjects | AgentCommandKind::InteractObject => Some(
            "SWD5 family has no role/actor entities (chang_role_map, set_motion and set_walks are stubs), so there is nothing to enumerate or interact with until game-layer role loading lands"@,
        ),
        AgentCommandKind::SetDebugCamera => Some(
            "SWD5 family has no free-fly debug-camera mode; place the camera directly with /v1/camera/pose"@,
        ),
        AgentCommandKind::TraceStart | AgentCommandKind::TraceStop | AgentCommandKind::TraceDrain => Some(
            "SWD5-family Lua VM has no trace adapter yet"@,
        ),
        _ => None,
    }
}

/// The route of a command kind: log tails are served by the transport
/// and never queued; the commands in `refusal_text` are refused with that
/// text; every other one is served.
pub fn swd5_route(kind: AgentCommandKind) -> (r: Swd5Route)
    ensures
        kind == AgentCommandKind::LogTail ==> (r matches Swd5Route::Internal(m) && m@
            == "log_tail must not be queued; served by transport"@),
        kind != AgentCommandKind::LogTail ==> match refusal_text(kind) {
            Some(t) => (r matches Swd5Route::NotImplemented(m) && m@ == t),
            None => r is Serve,
        },
{
    match kind {
        AgentCommandKind::LogTail => Swd5Route::Internal("log_tail must not be queued; served by transport"),
        AgentCommandKind::SaveSlot | AgentCommandKind::EnterNewGame | AgentCommandKind::EnterLoadGame
        | AgentCommandKind::LoadSlot => Swd5Route::NotImplemented(
            "SWD5 family has no save format support and boots straight into a single bootstrap script (no menu mode), so save/load and mode control have nothing to drive",
        ),
        AgentCommandKind::ExitGame => Swd5Route::NotImplemented("SWD5 family has no menu mode to exit to"),
        AgentCommandKind::ChooseDialog => Swd5Route::NotImplemented(
            "SWD5-family message boxes (storymsg / talkmsg) are free-form text with no choice list; use /v1/dialog/advance instead",
        ),
        AgentCommandKind::ChooseWorldMap => Swd5Route::NotImplemented("SWD5 family has no world-map prompt"),
        AgentCommandKind::GetSceneTriggers | AgentCommandKind::FireSceneTrigger => Swd5Route::NotImplemented(
            "SWD5-family maps carry no EVF-equivalent trigger volumes; the Lua script drives all transitions directly",
        ),
        AgentCommandKind::GetSceneObjects | AgentCommandKind::InteractObject => Swd5Route::NotImplemented(
            "SWD5 family has no role/actor entities (chang_role_map, set_motion and set_walks are stubs), so there is nothing to enumerate or interact with until game-layer role loading lands",
        ),
        AgentCommandKind::SetDebugCamera => Swd5Route::NotImplemented(
            "SWD5 family has no free-fly debug-camera mode; place the camera directly with /v1/camera/pose",
        ),
        AgentCommandKind::TraceStart | AgentCommandKind::TraceStop | AgentCommandKind::TraceDrain => Swd5Route::NotImplemented(
            "SWD5-family Lua VM has no trace adapter yet",
        ),
        _ => Swd5Route::Serve,
    }
}

/// What `encoding::all::BIG5_2003.decode(raw, DecoderTrap::Ignore)` gives
/// for `raw`: the text, or the text of the reported error (its `Debug`
/// form).
pub uninterp spec fn big5_decode_ignore(raw: Seq<u8>) -> Result<Seq<char>, Seq<char>>;

/// Decodes Big5 bytes, dropping undecodable sequences
/// (`encoding::all::BIG5_2003.decode` with `DecoderTrap::Ignore`); an
/// error comes back as its `Debug` text.
#[verifier::external_body]
fn decode_big5_ignore(raw: &[u8]) -> (r: Result<String, String>)
    ensures
        big5_decode_ignore(raw@) == (match r {
            Ok(t) => Ok::<Seq<char>, Seq<char>>(t@),
            Err(e) => Err::<Seq<char>, Seq<char>>(e@),
        }),
{
    match encoding::all::BIG5_2003.decode(raw, encoding::DecoderTrap::Ignore) {
        Ok(text) => Ok(text),
        Err(e) => Err(format!("{:?}", e)),
    }
}

/// A script string: its Big5 bytes decoded, or the decoder's error text.
pub fn decode_big5(raw: &[u8]) -> (r: String)
    ensures
        r@ == match big5_decode_ignore(raw@) {
            Ok(t) => t,
            Err(e) => e,
        },
{
    match decode_big5_ignore(raw) {
        Ok(t) => t,
        Err(e) => e,
    }
}

#[verifier::external_type_specification]
#[verifier::external_body]
pub struct ExLzo(minilzo_rs::LZO);

#[verifier::external_type_specification]
#[verifier::external_body]
pub struct ExLzoError(minilzo_rs::Error);

/// A fresh LZO codec (`minilzo_rs::LZO::init`). Its outcome depends on
/// the build of the C library, so nothing is stated of it.
#[verifier::external_body]
fn lzo_init() -> (r: Result<minilzo_rs::LZO, minilzo_rs::Error>) {
    minilzo_rs::LZO::init()
}

/// What `minilzo_rs::LZO::decompress_safe` gives for `src` and `dst_len`:
/// the decompressed bytes, or `None` where it reports an error (corrupt or
/// truncated input and output overruns included).
pub uninterp spec fn lzo1x_decompressed(src: Seq<u8>, dst_len: usize) -> Option<Seq<u8>>;

/// Decompresses LZO1X data into a buffer of `dst_len` bytes with overrun
/// checks (`minilzo_rs::LZO::decompress_safe`, which calls the C
/// `lzo1x_decompress_safe`). On success the buffer is returned at its full
/// length; input that would read or write out of bounds is an error.
#[verifier::external_body]
fn lzo_decompress(lzo: &minilzo_rs::LZO, src: &[u8], dst_len: usize) -> (r: Result<Vec<u8>, minilzo_rs::Error>)
    ensures
        lzo1x_decompressed(src@, dst_len) == (match r {
            Ok(v) => Some(v@),
            Err(_) => None::<Seq<u8>>,
        }),
        r matches Ok(v) ==> v@.len() == dst_len,
{
    lzo.decompress_safe(src, dst_len)
}

/// Why the main script could not be unpacked.
#[derive(Debug, Clone, Copy, PartialEq, Eq, Structural)]
pub enum ScriptUnpackError {
    /// The LZO codec did not initialise.
    CodecInit,
    /// The packed data did not decompress.
    Decompress,
}

/// The main script, unpacked from the LZO1X data of its container to the
/// size the container records.
pub fn unpack_main_script(packed: &[u8], original_size: usize) -> (r: Result<Vec<u8>, ScriptUnpackError>)
    ensures
        r matches Ok(v) ==> v@.len() == original_size && lzo1x_decompressed(packed@, original_size) == Some(v@),
        r matches Err(ScriptUnpackError::Decompress) ==> lzo1x_decompressed(packed@, original_size) is None,
{
    let lzo = match lzo_init() {
        Ok(l) => l,
        Err(_) => {
            return Err(ScriptUnpackError::CodecInit);
        },
    };
    match lzo_decompress(&lzo, packed, original_size) {
        Ok(v) => Ok(v),
        Err(_) => Err(ScriptUnpackError::Decompress),
    }
}

} // verus!
