//! The enforcement stance of a host.

use vstd::prelude::*;

verus! {

/// How far policies are enforced. An ungoverned session is a choice that is
/// spelled out, never what is left when a part was forgotten.
#[derive(Debug, Clone, Copy, PartialEq, Eq, Structural)]
pub enum Posture {
    /// Nothing is evaluated. The only ungoverned stance.
    Disabled,
    /// Everything is evaluated and reported, and nothing is enforced.
    Permissive,
    /// Everything is enforced, and what is in doubt is refused.
    Enforcing,
}

impl Posture {
    /// The posture's name.
    pub open spec fn text(&self) -> Seq<char> {
        match self {
            Posture::Disabled => "Disabled"@,
            Posture::Permissive => "Permissive"@,
            Posture::Enforcing => "Enforcing"@,
        }
    }

    /// The posture's name.
    pub fn name(&self) -> (r: &'static str)
        ensures
            r@ == self.text(),
    {
        match self {
            Posture::Disabled => "Disabled",
            Posture::Permissive => "Permissive",
            Posture::Enforcing => "Enforcing",
        }
    }

    /// Whether enforcement is installed on a session: under every posture but
    /// [`Posture::Disabled`].
    pub fn installs_planner(self) -> (r: bool)
        ensures
            r == (self != Posture::Disabled),
    {
        match self {
            Posture::Disabled => false,
            _ => true,
        }
    }
}

} // verus!
