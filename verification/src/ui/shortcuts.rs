//! Keyboard and media-key shortcuts of the tray.
use vstd::prelude::*;

use crate::text::{
    ascii_lower, is_space, lemma_trim_idempotent, lower, lowered, same_as_str, trim, trim_end,
    trim_start, trimmed_str,
};

verus! {

/// What a shortcut asks for.
#[derive(Debug, Clone, Copy, PartialEq, Eq)]
pub enum ShortcutAction {
    TogglePlayback,
    NextStation,
}

/// The action bound to a key name, ignoring ASCII case and surrounding
/// whitespace.
pub open spec fn shortcut_for(key: Seq<char>) -> Option<ShortcutAction> {
    let k = lower(trim(key));
    if k == "space"@ || k == "p"@ || k == "k"@ || k == "xf86audioplay"@ || k == "xf86audiopause"@
        || k == "xf86audiostop"@ {
        Some(ShortcutAction::TogglePlayback)
    } else if k == "n"@ || k == "xf86audionext"@ {
        Some(ShortcutAction::NextStation)
    } else {
        None
    }
}

/// The bindings, in any ASCII case and with any surrounding whitespace:
/// space, p, k and the media keys play, pause and stop toggle playback; n
/// and the next media key go to the next station.
pub proof fn lemma_shortcut_bindings(key: Seq<char>)
    ensures
        lower(trim(key)) == "space"@ ==> shortcut_for(key) == Some(ShortcutAction::TogglePlayback),
        lower(trim(key)) == "p"@ ==> shortcut_for(key) == Some(ShortcutAction::TogglePlayback),
        lower(trim(key)) == "k"@ ==> shortcut_for(key) == Some(ShortcutAction::TogglePlayback),
        lower(trim(key)) == "xf86audioplay"@ ==> shortcut_for(key) == Some(
            ShortcutAction::TogglePlayback,
        ),
        lower(trim(key)) == "xf86audiopause"@ ==> shortcut_for(key) == Some(
            ShortcutAction::TogglePlayback,
        ),
        lower(trim(key)) == "xf86audiostop"@ ==> shortcut_for(key) == Some(
            ShortcutAction::TogglePlayback,
        ),
        lower(trim(key)) == "n"@ ==> shortcut_for(key) == Some(ShortcutAction::NextStation),
        lower(trim(key)) == "xf86audionext"@ ==> shortcut_for(key) == Some(
            ShortcutAction::NextStation,
        ),
{
    reveal_strlit("space");
    reveal_strlit("p");
    reveal_strlit("k");
    reveal_strlit("xf86audioplay");
    reveal_strlit("xf86audiopause");
    reveal_strlit("xf86audiostop");
    reveal_strlit("n");
    reveal_strlit("xf86audionext");
    assert("n"@[0] != "p"@[0] && "n"@[0] != "k"@[0]);
    assert("xf86audionext"@ != "xf86audioplay"@) by {
        assert("xf86audionext"@[9] != "xf86audioplay"@[9]);
    }
    assert("xf86audionext"@ != "xf86audiostop"@) by {
        assert("xf86audionext"@[9] != "xf86audiostop"@[9]);
    }
    assert("xf86audionext"@.len() != "xf86audiopause"@.len());
    assert("xf86audionext"@.len() != "space"@.len());
}

/// The action bound to the key named `key`, if any.
pub fn shortcut_action_for_key(key: &str) -> (r: Option<ShortcutAction>)
    ensures
        r == shortcut_for(key@),
{
    let t = trimmed_str(key);
    let k = lowered(&t);
    if same_as_str(&k, "space") || same_as_str(&k, "p") || same_as_str(&k, "k") || same_as_str(
        &k,
        "xf86audioplay",
    ) || same_as_str(&k, "xf86audiopause") || same_as_str(&k, "xf86audiostop") {
        Some(ShortcutAction::TogglePlayback)
    } else if same_as_str(&k, "n") || same_as_str(&k, "xf86audionext") {
        Some(ShortcutAction::NextStation)
    } else {
        None
    }
}

proof fn lemma_lower_keeps_space(c: char)
    ensures
        is_space(ascii_lower(c)) == is_space(c),
{
}

proof fn lemma_trim_start_lower(s: Seq<char>)
    ensures
        trim_start(lower(s)) == lower(trim_start(s)),
    decreases s.len(),
{
    if s.len() > 0 {
        lemma_lower_keeps_space(s[0]);
        assert(lower(s)[0] == ascii_lower(s[0]));
        if is_space(s[0]) {
            assert(lower(s).drop_first() =~= lower(s.drop_first()));
            lemma_trim_start_lower(s.drop_first());
        }
    } else {
        assert(lower(s) =~= s);
    }
}

proof fn lemma_trim_end_lower(s: Seq<char>)
    ensures
        trim_end(lower(s)) == lower(trim_end(s)),
    decreases s.len(),
{
    if s.len() > 0 {
        lemma_lower_keeps_space(s.last());
        assert(lower(s).last() == ascii_lower(s.last()));
        if is_space(s.last()) {
            assert(lower(s).drop_last() =~= lower(s.drop_last()));
            lemma_trim_end_lower(s.drop_last());
        }
    } else {
        assert(lower(s) =~= s);
    }
}

/// Lowering ASCII capitals commutes with trimming.
pub proof fn lemma_trim_lower(s: Seq<char>)
    ensures
        trim(lower(s)) == lower(trim(s)),
{
    lemma_trim_start_lower(s);
    lemma_trim_end_lower(trim_start(s));
}

/// Shortcut keys ignore ASCII case and surrounding whitespace.
pub proof fn lemma_shortcut_ignores_case_and_padding(key: Seq<char>)
    ensures
        shortcut_for(lower(key)) == shortcut_for(key),
        shortcut_for(trim(key)) == shortcut_for(key),
{
    lemma_trim_lower(key);
    assert(lower(lower(trim(key))) =~= lower(trim(key)));
    lemma_trim_idempotent(key);
}

} // verus!
