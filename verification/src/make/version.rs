//! The version of the program, as it tells it.

use vstd::prelude::*;
use vstd::string::StringExecFns;

verus! {

/// What the program knows of its own build.
#[derive(Debug, Clone, PartialEq, Eq)]
pub struct Version {
    /// The semantic version, as text.
    pub semversion: String,
    /// The revision that the program was built from.
    pub git_rev: String,
    /// Whether the sources had changes that no revision holds.
    pub git_is_dirty: bool,
    /// When the program was built, as text.
    pub build_time: String,
    /// The profile that the program was built with.
    pub build_profile: String,
}

impl Version {
    /// The version, with a star behind it where the sources were dirty.
    pub open spec fn short(&self) -> Seq<char> {
        self.semversion@ + (if self.git_is_dirty {
            "*"@
        } else {
            ""@
        })
    }

    /// The short version, the profile, and on a line of its own the time of the build.
    pub open spec fn long(&self) -> Seq<char> {
        self.short() + " "@ + self.build_profile@ + "\nbuilt at: "@ + self.build_time@
    }

    /// See [`Version::short`].
    pub fn render_short(&self) -> (rendered: String)
        ensures
            rendered@ == self.short(),
    {
        let mut rendered = self.semversion.clone();
        rendered.append(if self.git_is_dirty {
            "*"
        } else {
            ""
        });
        rendered
    }

    /// See [`Version::long`].
    pub fn render_long(&self) -> (rendered: String)
        ensures
            rendered@ == self.long(),
    {
        let mut rendered = self.render_short();
        rendered.append(" ");
        rendered.append(self.build_profile.as_str());
        rendered.append("\nbuilt at: ");
        rendered.append(self.build_time.as_str());
        rendered
    }
}

} // verus!
