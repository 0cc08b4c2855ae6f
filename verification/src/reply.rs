//! Interpretation of daemon replies for the per-unit operations.
//!
//! The bus transport is I/O and lives outside this crate: a caller
//! performs the round trip and hands the outcome in as a plain value,
//! either the reply envelope's item sequence or the diagnostic text of a
//! transport or daemon failure.  The functions here turn that outcome into
//! the operation's success or error message.

use vstd::prelude::*;
use crate::units::SystemdUnit;
use crate::units::UnitState;

verus! {

/// One typed item of a daemon reply envelope.
pub enum BusItem {
    Bool(bool),
    Str(String),
    Arr(Vec<BusItem>),
}

/// The enable reply shape that means "already enabled": exactly a true
/// carries-out-install flag followed by an empty change list.
pub open spec fn already_enabled_reply(items: Seq<BusItem>) -> bool {
    &&& items.len() == 2
    &&& items[0] == BusItem::Bool(true)
    &&& (items[1] matches BusItem::Arr(changes) && changes@.len() == 0)
}

/// The disable reply shape that means "already disabled": exactly an
/// empty change list.
pub open spec fn already_disabled_reply(items: Seq<BusItem>) -> bool {
    &&& items.len() == 1
    &&& (items[0] matches BusItem::Arr(changes) && changes@.len() == 0)
}

pub open spec fn enable_success_text(name: Seq<char>, items: Seq<BusItem>) -> Seq<char> {
    if already_enabled_reply(items) {
        name + " already enabled"@
    } else {
        name + " has been enabled"@
    }
}

pub open spec fn enable_error_text(name: Seq<char>, diag: Seq<char>) -> Seq<char> {
    "Error enabling "@ + name + ":\n"@ + diag
}

pub open spec fn disable_success_text(name: Seq<char>, items: Seq<BusItem>) -> Seq<char> {
    if already_disabled_reply(items) {
        name + " is already disabled"@
    } else {
        name + " has been disabled"@
    }
}

pub open spec fn disable_error_text(name: Seq<char>, diag: Seq<char>) -> Seq<char> {
    "Error disabling "@ + name + ":\n"@ + diag
}

pub open spec fn start_success_text(name: Seq<char>) -> Seq<char> {
    name + " successfully started"@
}

pub open spec fn start_error_text(name: Seq<char>, diag: Seq<char>) -> Seq<char> {
    name + " failed to start:\n"@ + diag
}

pub open spec fn stop_success_text(name: Seq<char>) -> Seq<char> {
    name + " successfully stopped"@
}

pub open spec fn stop_error_text(name: Seq<char>, diag: Seq<char>) -> Seq<char> {
    name + " failed to stop:\n"@ + diag
}

/// Whether the first record whose path matches reports state `Enabled`;
/// false if no record's path matches.
pub open spec fn enabled_in(units: Seq<SystemdUnit>, path: Seq<char>) -> bool
    decreases units.len(),
{
    if units.len() == 0 {
        false
    } else if units[0].path@ == path {
        units[0].state == UnitState::Enabled
    } else {
        enabled_in(units.skip(1), path)
    }
}

fn is_already_enabled(items: &Vec<BusItem>) -> (r: bool)
    ensures
        r == already_enabled_reply(items@),
{
    if items.len() != 2 {
        return false;
    }
    let flag_ok = match &items[0] {
        BusItem::Bool(b) => *b,
        _ => false,
    };
    let changes_ok = match &items[1] {
        BusItem::Arr(changes) => changes.len() == 0,
        _ => false,
    };
    flag_ok && changes_ok
}

fn is_already_disabled(items: &Vec<BusItem>) -> (r: bool)
    ensures
        r == already_disabled_reply(items@),
{
    if items.len() != 1 {
        return false;
    }
    match &items[0] {
        BusItem::Arr(changes) => changes.len() == 0,
        _ => false,
    }
}

/// The per-unit operations, as they look once the bus round trip is done:
/// each takes the outcome of its own RPC and interprets it for this unit.
pub trait Dbus {
    /// The unit's file name, as the contracts see it.
    spec fn name_view(&self) -> Seq<char>;

    /// The unit's file path, as the contracts see it.
    spec fn path_view(&self) -> Seq<char>;

    /// Whether this unit reports state `Enabled` in the given fresh
    /// listing; false if the unit is absent from it.
    fn is_enabled(&self, units: &Vec<SystemdUnit>) -> (r: bool)
        ensures
            r == enabled_in(units@, self.path_view()),
    ;

    /// Interpret the outcome of `EnableUnitFiles` for this unit.
    fn enable(&self, reply: Result<Vec<BusItem>, String>) -> (r: Result<String, String>)
        ensures
            match reply {
                Ok(items) => r matches Ok(m) && m@ == enable_success_text(
                    self.name_view(),
                    items@,
                ),
                Err(diag) => r matches Err(m) && m@ == enable_error_text(
                    self.name_view(),
                    diag@,
                ),
            },
    ;

    /// Interpret the outcome of `DisableUnitFiles` for this unit.
    fn disable(&self, reply: Result<Vec<BusItem>, String>) -> (r: Result<String, String>)
        ensures
            match reply {
                Ok(items) => r matches Ok(m) && m@ == disable_success_text(
                    self.name_view(),
                    items@,
                ),
                Err(diag) => r matches Err(m) && m@ == disable_error_text(
                    self.name_view(),
                    diag@,
                ),
            },
    ;

    /// Interpret the outcome of `StartUnit` for this unit: success is
    /// reply presence alone.
    fn start(&self, reply: Result<Vec<BusItem>, String>) -> (r: Result<String, String>)
        ensures
            match reply {
                Ok(items) => r matches Ok(m) && m@ == start_success_text(self.name_view()),
                Err(diag) => r matches Err(m) && m@ == start_error_text(self.name_view(), diag@),
            },
    ;

    /// Interpret the outcome of `StopUnit` for this unit: success is
    /// reply presence alone.
    fn stop(&self, reply: Result<Vec<BusItem>, String>) -> (r: Result<String, String>)
        ensures
            match reply {
                Ok(items) => r matches Ok(m) && m@ == stop_success_text(self.name_view()),
                Err(diag) => r matches Err(m) && m@ == stop_error_text(self.name_view(), diag@),
            },
    ;
}

impl Dbus for SystemdUnit {
    open spec fn name_view(&self) -> Seq<char> {
        self.name@
    }

    open spec fn path_view(&self) -> Seq<char> {
        self.path@
    }

    fn is_enabled(&self, units: &Vec<SystemdUnit>) -> (r: bool) {
        let n = units.len();
        let mut i: usize = 0;
        proof {
            assert(units@.skip(0) =~= units@);
        }
        while i < n
            invariant
                n == units@.len(),
                i <= n,
                enabled_in(units@, self.path@) == enabled_in(units@.skip(i as int), self.path@),
            decreases n - i,
        {
            proof {
                assert(units@.skip(i as int)[0] == units@[i as int]);
                assert(units@.skip(i as int).skip(1) =~= units@.skip(i as int + 1));
            }
            if units[i].path == self.path {
                return units[i].state == UnitState::Enabled;
            }
            i = i + 1;
        }
        false
    }

    fn enable(&self, reply: Result<Vec<BusItem>, String>) -> (r: Result<String, String>) {
        match reply {
            Ok(items) => {
                if is_already_enabled(&items) {
                    Ok(self.name.clone().concat(" already enabled"))
                } else {
                    Ok(self.name.clone().concat(" has been enabled"))
                }
            },
            Err(diag) => Err(
                String::from_str("Error enabling ").concat(self.name.as_str()).concat(
                    ":\n",
                ).concat(diag.as_str()),
            ),
        }
    }

    fn disable(&self, reply: Result<Vec<BusItem>, String>) -> (r: Result<String, String>) {
        match reply {
            Ok(items) => {
                if is_already_disabled(&items) {
                    Ok(self.name.clone().concat(" is already disabled"))
                } else {
                    Ok(self.name.clone().concat(" has been disabled"))
                }
            },
            Err(diag) => Err(
                String::from_str("Error disabling ").concat(self.name.as_str()).concat(
                    ":\n",
                ).concat(diag.as_str()),
            ),
        }
    }

    fn start(&self, reply: Result<Vec<BusItem>, String>) -> (r: Result<String, String>) {
        match reply {
            Ok(_) => Ok(self.name.clone().concat(" successfully started")),
            Err(diag) => Err(
                self.name.clone().concat(" failed to start:\n").concat(diag.as_str()),
            ),
        }
    }

    fn stop(&self, reply: Result<Vec<BusItem>, String>) -> (r: Result<String, String>) {
        match reply {
            Ok(_) => Ok(self.name.clone().concat(" successfully stopped")),
            Err(diag) => Err(
                self.name.clone().concat(" failed to stop:\n").concat(diag.as_str()),
            ),
        }
    }
}

} // verus!
