//! What the parts of the client share: where the server is, what has the
//! focus, and what the keyboard asks for.

use crate::text::chars;
use vstd::prelude::*;

verus! {

/// Where the server is: its URL without a slash at the end.
#[derive(Debug, PartialEq, Eq)]
pub struct BaseUrl(pub String);

/// `href` without one slash at its end, where it ends in one.
pub open spec fn trimmed(href: Seq<char>) -> Seq<char> {
    if href.len() > 0 && href.last() == '/' {
        href.drop_last()
    } else {
        href
    }
}

impl BaseUrl {
    /// The base URL for the address `href`.
    pub fn new(href: String) -> (r: BaseUrl)
        ensures
            r.0@ == trimmed(href@),
    {
        let n: usize = href.as_str().unicode_len();
        if n > 0 && href.as_str().get_char(n - 1) == '/' {
            let cut = href.as_str().substring_char(0, n - 1);
            assert(href@.subrange(0, n - 1) =~= href@.drop_last());
            BaseUrl(String::from_str(cut))
        } else {
            BaseUrl(href)
        }
    }

    /// The URL as text.
    pub fn as_str(&self) -> (r: &str)
        ensures
            r@ == self.0@,
    {
        self.0.as_str()
    }
}

/// What the keyboard asks of the search field.
#[derive(Clone, Copy, Debug, PartialEq, Eq, Structural)]
pub enum Command {
    Noop,
    FocusSearch,
    BlurSearch,
}

/// What has the focus.
#[derive(Clone, Copy, Debug, PartialEq, Eq, Structural)]
pub enum Focus {
    Player,
    Search,
}

/// A key of the keyboard, as far as the client tells keys apart.
#[derive(Clone, Copy, Debug, PartialEq, Eq, Structural)]
pub enum Key {
    Character(char),
    Escape,
    Space,
    Other,
}

/// What a key press leads to.
#[derive(Clone, Copy, Debug, PartialEq, Eq, Structural)]
pub enum Shortcut {
    /// The command goes to the search field, and the key press ends here.
    Send(Command),
    /// Playback pauses or goes on, and the key press ends here.
    TogglePlayback,
    /// The key press goes on to whoever else takes it.
    Pass,
}

/// What a key press leads to: `f` with control or meta focuses the search
/// field, escape leaves it, and the space bar toggles playback while
/// nothing has the focus.
pub fn shortcut(key: Key, ctrl_or_meta: bool, focus: Option<Focus>) -> (r: Shortcut)
    ensures
        r == match key {
            Key::Character(c) => if c == 'f' && ctrl_or_meta {
                Shortcut::Send(Command::FocusSearch)
            } else {
                Shortcut::Pass
            },
            Key::Escape => Shortcut::Send(Command::BlurSearch),
            Key::Space => if focus is None {
                Shortcut::TogglePlayback
            } else {
                Shortcut::Pass
            },
            Key::Other => Shortcut::Pass,
        },
{
    match key {
        Key::Character(c) => if c == 'f' && ctrl_or_meta {
            Shortcut::Send(Command::FocusSearch)
        } else {
            Shortcut::Pass
        },
        Key::Escape => Shortcut::Send(Command::BlurSearch),
        Key::Space => if focus.is_none() {
            Shortcut::TogglePlayback
        } else {
            Shortcut::Pass
        },
        Key::Other => Shortcut::Pass,
    }
}

/// What to search for when the search field holds `text`: the text, or
/// nothing where the field is empty.
pub fn search_value(text: String) -> (r: Option<String>)
    ensures
        r == if text@.len() > 0 {
            Some(text)
        } else {
            None
        },
{
    if chars(text.as_str()).len() > 0 {
        Some(text)
    } else {
        None
    }
}

} // verus!
