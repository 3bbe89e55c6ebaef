//! The broadcast services whose "now on air" programme the application shows.

use vstd::prelude::*;

verus! {

/// A selectable broadcast service.  `Unselected` stands for "no service
/// chosen yet".
#[derive(Clone, Copy, Debug, Eq, Ord, PartialEq, PartialOrd, Structural)]
pub enum Service {
    Unselected,
    G1,
    E1,
    R1,
    R2,
    R3,
}

/// The service's short code: the channel object of the feed document and the
/// request path both use it.
pub open spec fn code_chars(s: Service) -> Seq<char> {
    match s {
        Service::Unselected => ""@,
        Service::G1 => "g1"@,
        Service::E1 => "e1"@,
        Service::R1 => "r1"@,
        Service::R2 => "r2"@,
        Service::R3 => "r3"@,
    }
}

/// The service's human-readable name, as shown on the channel buttons.
pub open spec fn label_chars(s: Service) -> Seq<char> {
    match s {
        Service::Unselected => ""@,
        Service::G1 => "NHK総合1"@,
        Service::E1 => "Eテレ1"@,
        Service::R1 => "ラジオ第1"@,
        Service::R2 => "ラジオ第2"@,
        Service::R3 => "NHK FM"@,
    }
}

impl Default for Service {
    fn default() -> (r: Self)
        ensures
            r == Service::Unselected,
    {
        Service::Unselected
    }
}

impl Service {
    /// The service's key in the feed, as [`code_chars`] spells it.
    pub fn code(&self) -> (r: String)
        ensures
            r@ == code_chars(*self),
    {
        match self {
            Service::Unselected => "".to_owned(),
            Service::G1 => "g1".to_owned(),
            Service::E1 => "e1".to_owned(),
            Service::R1 => "r1".to_owned(),
            Service::R2 => "r2".to_owned(),
            Service::R3 => "r3".to_owned(),
        }
    }

    /// The service's display name, as [`label_chars`] spells it.
    pub fn label(&self) -> (r: String)
        ensures
            r@ == label_chars(*self),
    {
        match self {
            Service::Unselected => "".to_owned(),
            Service::G1 => "NHK総合1".to_owned(),
            Service::E1 => "Eテレ1".to_owned(),
            Service::R1 => "ラジオ第1".to_owned(),
            Service::R2 => "ラジオ第2".to_owned(),
            Service::R3 => "NHK FM".to_owned(),
        }
    }
}

} // verus!
