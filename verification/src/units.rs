//! Unit records and their classification.
//!
//! A unit is a value decoded from one (path, state) pair of the daemon's
//! unit-file listing.  Its type is a pure function of the path's file
//! extension, and its enablement state a pure function of the first
//! character of the daemon-supplied state text.

use vstd::prelude::*;
use crate::text::has_suffix;
use crate::text::str_has_suffix;
use crate::text::tail_after;

verus! {

/// The kind of a unit, read off the file extension of its path.
#[derive(Clone, Copy, PartialEq, Eq, Structural, Debug)]
pub enum UnitType {
    Automount,
    Device,
    Mount,
    Path,
    Service,
    Snapshot,
    Socket,
    Target,
    Timer,
    Unknown,
}

/// The enablement state of a unit, read off the first character of the
/// daemon-supplied state text.
#[derive(Clone, Copy, PartialEq, Eq, Structural, Debug)]
pub enum UnitState {
    Enabled,
    Disabled,
    Static,
    Masked,
    Unknown,
}

/// The type a path classifies to: each recognised extension maps to
/// exactly one type, and anything else to `Unknown`.
pub open spec fn unit_type_of(path: Seq<char>) -> UnitType {
    if has_suffix(path, ".automount"@) {
        UnitType::Automount
    } else if has_suffix(path, ".device"@) {
        UnitType::Device
    } else if has_suffix(path, ".mount"@) {
        UnitType::Mount
    } else if has_suffix(path, ".path"@) {
        UnitType::Path
    } else if has_suffix(path, ".service"@) {
        UnitType::Service
    } else if has_suffix(path, ".snapshot"@) {
        UnitType::Snapshot
    } else if has_suffix(path, ".socket"@) {
        UnitType::Socket
    } else if has_suffix(path, ".target"@) {
        UnitType::Target
    } else if has_suffix(path, ".timer"@) {
        UnitType::Timer
    } else {
        UnitType::Unknown
    }
}

/// The state a raw state text classifies to: each first-character class
/// maps to exactly one state, and anything else to `Unknown`.
pub open spec fn unit_state_of(token: Seq<char>) -> UnitState {
    if token.len() == 0 {
        UnitState::Unknown
    } else if token[0] == 'e' {
        UnitState::Enabled
    } else if token[0] == 'd' {
        UnitState::Disabled
    } else if token[0] == 's' {
        UnitState::Static
    } else if token[0] == 'm' {
        UnitState::Masked
    } else {
        UnitState::Unknown
    }
}

impl UnitType {
    /// Classify a unit by the extension of its path.
    pub fn new(pathname: &str) -> (r: UnitType)
        ensures
            r == unit_type_of(pathname@),
    {
        if str_has_suffix(pathname, ".automount") {
            UnitType::Automount
        } else if str_has_suffix(pathname, ".device") {
            UnitType::Device
        } else if str_has_suffix(pathname, ".mount") {
            UnitType::Mount
        } else if str_has_suffix(pathname, ".path") {
            UnitType::Path
        } else if str_has_suffix(pathname, ".service") {
            UnitType::Service
        } else if str_has_suffix(pathname, ".snapshot") {
            UnitType::Snapshot
        } else if str_has_suffix(pathname, ".socket") {
            UnitType::Socket
        } else if str_has_suffix(pathname, ".target") {
            UnitType::Target
        } else if str_has_suffix(pathname, ".timer") {
            UnitType::Timer
        } else {
            UnitType::Unknown
        }
    }
}

impl UnitState {
    /// Classify a unit's enablement state by the first character of the
    /// daemon-supplied state text.
    pub fn new(token: &str) -> (r: UnitState)
        ensures
            r == unit_state_of(token@),
    {
        if token.unicode_len() == 0 {
            return UnitState::Unknown;
        }
        let c = token.get_char(0);
        if c == 'e' {
            UnitState::Enabled
        } else if c == 'd' {
            UnitState::Disabled
        } else if c == 's' {
            UnitState::Static
        } else if c == 'm' {
            UnitState::Masked
        } else {
            UnitState::Unknown
        }
    }
}

/// One unit-file record from the daemon's listing.
#[derive(Debug)]
pub struct SystemdUnit {
    /// The final path segment of `path`; never empty.
    pub name: String,
    /// The absolute path of the unit file, as the daemon reported it.
    pub path: String,
    /// Classified from `path`'s extension.
    pub utype: UnitType,
    /// Classified from the daemon-supplied state text.
    pub state: UnitState,
}

impl SystemdUnit {
    /// A well-formed unit: the derived fields agree with `path`, and the
    /// name is the non-empty final path segment.
    pub open spec fn wf(self) -> bool {
        &&& self.name@ == tail_after(self.path@, '/')
        &&& self.name@.len() > 0
        &&& self.utype == unit_type_of(self.path@)
    }
}

impl Clone for SystemdUnit {
    fn clone(&self) -> (r: Self)
        ensures
            r == *self,
    {
        SystemdUnit {
            name: self.name.clone(),
            path: self.path.clone(),
            utype: self.utype,
            state: self.state,
        }
    }
}

/// Classification is deterministic and idempotent: classifying twice from
/// the same raw inputs yields identical results, since both classifiers
/// are functions of their input sequences alone.
pub proof fn lemma_classification_deterministic(
    path_a: Seq<char>,
    path_b: Seq<char>,
    token_a: Seq<char>,
    token_b: Seq<char>,
)
    requires
        path_a == path_b,
        token_a == token_b,
    ensures
        unit_type_of(path_a) == unit_type_of(path_b),
        unit_state_of(token_a) == unit_state_of(token_b),
{
}

} // verus!
