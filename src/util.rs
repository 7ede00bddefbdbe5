//! The default places of the game's folders, below its base folder.

use crate::path::{join, path_join};
use vstd::prelude::*;

verus! {

/// Mutation in place of the value an `Option` holds.
pub trait OptionExt<T>: Sized {
    /// Calls `f` with a mutable reference to the contained value, if there
    /// is one, and returns the option.
    fn inspect_mut<F: FnOnce(&mut T)>(self, f: F) -> (r: Self)
        requires
            forall|x: &mut T| #[trigger] f.requires((x,)),
    ;
}

impl<T> OptionExt<T> for Option<T> {
    fn inspect_mut<F: FnOnce(&mut T)>(self, f: F) -> (r: Self)
        ensures
            r is Some <==> self is Some,
            self matches Some(v) ==> exists|x: &mut T|
                *x == v && #[trigger] f.ensures((x,), ()) && r == Some(*final(x)),
    {
        let mut o = self;
        if let Some(x) = &mut o {
            f(x);
        }
        o
    }
}

/// `base` with `name` joined to it, where there is a `base`.
pub open spec fn below(base: Option<Seq<char>>, name: Seq<char>) -> Option<Seq<char>> {
    match base {
        Some(b) => Some(path_join(b, name)),
        None => None,
    }
}

/// The default hashed assets folder: `assets` in the game's folder
/// `minecraft_dir`, where there is one.
pub fn hashed_assets_dir(minecraft_dir: Option<String>) -> (r: Option<String>)
    ensures
        r.deep_view() == below(minecraft_dir.deep_view(), "assets"@),
{
    match minecraft_dir {
        Some(base) => Some(join(base.as_str(), "assets")),
        None => None,
    }
}

/// The default versions folder: `versions` in the game's folder
/// `minecraft_dir`, where there is one.
pub fn versions_dir(minecraft_dir: Option<String>) -> (r: Option<String>)
    ensures
        r.deep_view() == below(minecraft_dir.deep_view(), "versions"@),
{
    match minecraft_dir {
        Some(base) => Some(join(base.as_str(), "versions")),
        None => None,
    }
}

} // verus!
