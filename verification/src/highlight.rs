//! The highlighter adapter: the color themes offered to the user and the
//! stateless mapping from the current theme and document path to the
//! settings handed to the host's syntax highlighter. The extension falls
//! back to a fixed default when the document has no path or the path has
//! no extension.

use vstd::prelude::*;
use crate::document::{chars_of, string_from_chars};

verus! {

/// A syntax-highlighting color theme.
#[derive(Clone, Copy, Debug, PartialEq, Eq, Structural)]
pub enum Theme {
    SolarizedDark,
    Base16Mocha,
    Base16Ocean,
    Base16Eighties,
    InspiredGitHub,
}

impl Theme {
    /// Whether the theme uses a dark background; every theme here but
    /// `InspiredGitHub` does.
    pub open spec fn is_dark_spec(self) -> bool {
        !(self is InspiredGitHub)
    }

    /// Executable twin of [`Theme::is_dark_spec`].
    pub fn is_dark(&self) -> (r: bool)
        ensures
            r == self.is_dark_spec(),
    {
        match self {
            Theme::InspiredGitHub => false,
            _ => true,
        }
    }

    /// Every theme, in the order offered to the user.
    pub fn all() -> (r: Vec<Theme>)
        ensures
            r@ =~= seq![
                Theme::SolarizedDark,
                Theme::Base16Mocha,
                Theme::Base16Ocean,
                Theme::Base16Eighties,
                Theme::InspiredGitHub,
            ],
    {
        let mut v: Vec<Theme> = Vec::new();
        v.push(Theme::SolarizedDark);
        v.push(Theme::Base16Mocha);
        v.push(Theme::Base16Ocean);
        v.push(Theme::Base16Eighties);
        v.push(Theme::InspiredGitHub);
        v
    }
}

/// The index of the last occurrence of `c` in `s`, or `-1` when `c` does
/// not occur.
pub open spec fn last_index_of(s: Seq<char>, c: char) -> int
    decreases s.len(),
{
    if s.len() == 0 {
        -1
    } else if s.last() == c {
        s.len() - 1
    } else {
        last_index_of(s.drop_last(), c)
    }
}

/// The file name of a path: everything after its last separator.
pub open spec fn file_name_spec(p: Seq<char>) -> Seq<char> {
    p.skip(last_index_of(p, '/') + 1)
}

/// The extension of a path: everything after the last dot of its file
/// name. A name without a dot, or whose only dot begins it, has none.
pub open spec fn extension_spec(p: Seq<char>) -> Option<Seq<char>> {
    let name = file_name_spec(p);
    let d = last_index_of(name, '.');
    if d <= 0 {
        None
    } else {
        Some(name.skip(d + 1))
    }
}

/// The extension the highlighter is asked for: the path's own extension,
/// or `rs` when there is no path or no extension.
pub open spec fn extension_or_default(path: Option<Seq<char>>) -> Seq<char> {
    match path {
        None => "rs"@,
        Some(p) => match extension_spec(p) {
            None => "rs"@,
            Some(e) => e,
        },
    }
}

/// What the host's highlighter is configured with.
pub struct HighlightSettings {
    pub theme: Theme,
    pub extension: String,
}

/// The index of the last occurrence of `c` in `v`, if any.
fn last_index(v: &Vec<char>, c: char) -> (r: Option<usize>)
    ensures
        match r {
            Some(i) => i as int == last_index_of(v@, c) && i < v@.len(),
            None => last_index_of(v@, c) == -1,
        },
{
    let mut i: usize = v.len();
    proof {
        assert(v@.take(i as int) =~= v@);
    }
    while i > 0
        invariant
            i <= v@.len(),
            last_index_of(v@, c) == last_index_of(v@.take(i as int), c),
        decreases i,
    {
        if v[i - 1] == c {
            proof {
                assert(v@.take(i as int).last() == v@[i - 1]);
            }
            return Some(i - 1);
        }
        proof {
            assert(v@.take(i as int).drop_last() =~= v@.take(i - 1));
        }
        i -= 1;
    }
    proof {
        assert(v@.take(0) =~= Seq::<char>::empty());
    }
    None
}

/// The highlighter settings for the current theme and document path.
pub fn settings_for(theme: Theme, path: &Option<String>) -> (r: HighlightSettings)
    ensures
        r.theme == theme,
        r.extension@ == extension_or_default(crate::gateway::path_view(*path)),
{
    let extension: String = match path {
        None => rs_default(),
        Some(p) => {
            let cs = chars_of(p.as_str());
            // A vector's length fits in usize: lets `i + 1` below not overflow.
            let n = cs.len();
            proof {
                assert(cs@.len() == n as int);
            }
            let start: usize = match last_index(&cs, '/') {
                Some(i) => i + 1,
                None => 0,
            };
            let mut rest = cs;
            let name = rest.split_off(start);
            proof {
                assert(name@ == file_name_spec(p@));
            }
            // Same bound for `d + 1` below.
            let m = name.len();
            proof {
                assert(name@.len() == m as int);
            }
            match last_index(&name, '.') {
                Some(d) if d > 0 => {
                    let mut stem = name;
                    let ext = stem.split_off(d + 1);
                    string_from_chars(&ext)
                },
                _ => rs_default(),
            }
        },
    };
    HighlightSettings { theme, extension }
}

/// The fixed fallback extension.
fn rs_default() -> (r: String)
    ensures
        r@ == "rs"@,
{
    String::from_str("rs")
}

} // verus!
