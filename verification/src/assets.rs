//! The icons that the interface uses, by their paths.

use vstd::prelude::*;
use vstd::string::*;

use crate::text;
use crate::text::{push_text, same_text, starts_with};

verus! {

/// The pencil beside an agent's name.
pub const PENCIL: &'static str = "icons/pencil.svg";

/// The icons.
pub struct Assets;

impl Assets {
    /// The paths of all icons.
    pub open spec fn paths() -> Seq<Seq<char>> {
        seq![PENCIL@]
    }

    /// Whether there is an icon at a path.
    pub fn has(&self, path: &str) -> (r: bool)
        ensures
            r == Assets::paths().contains(path@),
    {
        let r: bool = same_text(path, PENCIL);
        proof {
            assert(Assets::paths()[0] == PENCIL@);
        }
        r
    }

    /// The paths of the icons that start in some way.
    pub fn list(&self, path: &str) -> (r: Vec<String>)
        ensures
            text::texts(r@) == Assets::paths().filter(|p: Seq<char>| text::starts(p, path@)),
    {
        let mut r: Vec<String> = Vec::new();
        if starts_with(PENCIL, path) {
            push_text(&mut r, PENCIL);
        }
        proof {
            reveal(Seq::filter);
            let keep = |p: Seq<char>| text::starts(p, path@);
            let all = Assets::paths();
            assert(all.drop_last() =~= Seq::<Seq<char>>::empty());
            assert(all.drop_last().filter(keep) =~= Seq::<Seq<char>>::empty());
            assert(text::texts(r@) =~= all.filter(keep));
        }
        r
    }
}

} // verus!
