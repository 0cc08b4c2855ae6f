//! Filtering a listing down to the units a user may safely toggle.
//!
//! A unit is togglable when it has the wanted type, reports state
//! `Enabled` or `Disabled` (a static, masked or unknown unit cannot be
//! meaningfully toggled), and is not a template unit, which would need an
//! instance parameter.  Filtering keeps the listing's relative order.

use vstd::prelude::*;
use crate::text::has_suffix;
use crate::text::str_has_suffix;
use crate::sorting::sorted_units;
use crate::sorting::unit_le;
use crate::units::SystemdUnit;
use crate::units::UnitState;
use crate::units::UnitType;

verus! {

/// A user may toggle `u` among units of type `t` with the given template
/// suffix: right type, togglable state, not a template.
pub open spec fn togglable(u: SystemdUnit, t: UnitType, template_suffix: Seq<char>) -> bool {
    &&& u.utype == t
    &&& (u.state == UnitState::Enabled || u.state == UnitState::Disabled)
    &&& !has_suffix(u.path@, template_suffix)
}

/// The subsequence of `units` that is togglable for type `t`, in input order.
pub open spec fn togglable_in(units: Seq<SystemdUnit>, t: UnitType, template_suffix: Seq<char>) -> Seq<
    SystemdUnit,
>
    decreases units.len(),
{
    if units.len() == 0 {
        Seq::empty()
    } else if togglable(units[0], t, template_suffix) {
        seq![units[0]] + togglable_in(units.skip(1), t, template_suffix)
    } else {
        togglable_in(units.skip(1), t, template_suffix)
    }
}

/// A unit stands in the filtered listing exactly when it stands in the
/// input and is togglable.
pub proof fn lemma_togglable_membership(
    units: Seq<SystemdUnit>,
    t: UnitType,
    template_suffix: Seq<char>,
    u: SystemdUnit,
)
    ensures
        togglable_in(units, t, template_suffix).contains(u) <==> units.contains(u) && togglable(
            u,
            t,
            template_suffix,
        ),
    decreases units.len(),
{
    if units.len() == 0 {
    } else {
        let rest = units.skip(1);
        lemma_togglable_membership(rest, t, template_suffix, u);
        assert(units.contains(u) <==> units[0] == u || rest.contains(u)) by {
            if units.contains(u) {
                let i = choose|i: int| 0 <= i < units.len() && units[i] == u;
                if i > 0 {
                    assert(rest[i - 1] == u);
                }
            }
            if rest.contains(u) {
                let i = choose|i: int| 0 <= i < rest.len() && rest[i] == u;
                assert(units[i + 1] == u);
            }
        }
        let filtered = togglable_in(units, t, template_suffix);
        let filtered_rest = togglable_in(rest, t, template_suffix);
        if togglable(units[0], t, template_suffix) {
            assert(filtered == seq![units[0]] + filtered_rest);
            assert(filtered.contains(u) <==> units[0] == u || filtered_rest.contains(u)) by {
                if filtered.contains(u) {
                    let i = choose|i: int| 0 <= i < filtered.len() && filtered[i] == u;
                    if i > 0 {
                        assert(filtered_rest[i - 1] == u);
                    }
                }
                if filtered_rest.contains(u) {
                    let i = choose|i: int| 0 <= i < filtered_rest.len() && filtered_rest[i] == u;
                    assert(filtered[i + 1] == u);
                }
                assert(filtered[0] == units[0]);
            }
        }
    }
}

/// Filtering keeps the listing's relative order: a listing that is
/// name-sorted stays name-sorted after filtering.
pub proof fn lemma_togglable_in_keeps_sorted(
    units: Seq<SystemdUnit>,
    t: UnitType,
    template_suffix: Seq<char>,
)
    requires
        sorted_units(units),
    ensures
        sorted_units(togglable_in(units, t, template_suffix)),
    decreases units.len(),
{
    if units.len() > 0 {
        let rest = units.skip(1);
        assert forall|i: int, j: int| 0 <= i < j < rest.len() implies unit_le(rest[i], rest[j]) by {
            assert(rest[i] == units[i + 1]);
            assert(rest[j] == units[j + 1]);
        }
        lemma_togglable_in_keeps_sorted(rest, t, template_suffix);
        let fr = togglable_in(rest, t, template_suffix);
        if togglable(units[0], t, template_suffix) {
            let f = seq![units[0]] + fr;
            assert forall|i: int, j: int| 0 <= i < j < f.len() implies unit_le(f[i], f[j]) by {
                if i == 0 {
                    assert(f[j] == fr[j - 1]);
                    assert(fr.contains(fr[j - 1]));
                    lemma_togglable_membership(rest, t, template_suffix, fr[j - 1]);
                    let k = choose|k: int| 0 <= k < rest.len() && rest[k] == fr[j - 1];
                    assert(unit_le(units[0], units[k + 1]));
                } else {
                    assert(f[i] == fr[i - 1] && f[j] == fr[j - 1]);
                }
            }
            assert(togglable_in(units, t, template_suffix) == f);
        }
    }
}

fn collect_togglable(units: &Vec<SystemdUnit>, t: UnitType, template_suffix: &str) -> (r: Vec<
    SystemdUnit,
>)
    ensures
        r@ == togglable_in(units@, t, template_suffix@),
{
    let n = units.len();
    let mut out: Vec<SystemdUnit> = Vec::new();
    let mut i: usize = 0;
    proof {
        assert(units@.skip(0) =~= units@);
        assert(out@ + togglable_in(units@, t, template_suffix@) =~= togglable_in(
            units@,
            t,
            template_suffix@,
        ));
    }
    while i < n
        invariant
            n == units@.len(),
            i <= n,
            out@ + togglable_in(units@.skip(i as int), t, template_suffix@) == togglable_in(
                units@,
                t,
                template_suffix@,
            ),
        decreases n - i,
    {
        proof {
            assert(units@.skip(i as int)[0] == units@[i as int]);
            assert(units@.skip(i as int).skip(1) =~= units@.skip(i as int + 1));
        }
        let u = &units[i];
        let keep = u.utype == t && (u.state == UnitState::Enabled || u.state
            == UnitState::Disabled) && !str_has_suffix(u.path.as_str(), template_suffix);
        if keep {
            let ghost out_before = out@;
            out.push(u.clone());
            proof {
                assert(out@ =~= out_before + seq![units@[i as int]]);
                assert((out_before + seq![units@[i as int]]) + togglable_in(
                    units@.skip(i as int + 1),
                    t,
                    template_suffix@,
                ) =~= out_before + (seq![units@[i as int]] + togglable_in(
                    units@.skip(i as int + 1),
                    t,
                    template_suffix@,
                )));
            }
        }
        i = i + 1;
    }
    proof {
        assert(units@.skip(n as int) =~= Seq::<SystemdUnit>::empty());
        assert(out@ + togglable_in(units@.skip(n as int), t, template_suffix@) =~= out@);
    }
    out
}

/// The services a user may toggle: type `Service`, state `Enabled` or
/// `Disabled`, and not a `@.service` template.  Input order is kept.
pub fn collect_togglable_services(units: &Vec<SystemdUnit>) -> (r: Vec<SystemdUnit>)
    ensures
        r@ == togglable_in(units@, UnitType::Service, "@.service"@),
{
    collect_togglable(units, UnitType::Service, "@.service")
}

/// The sockets a user may toggle: type `Socket`, state `Enabled` or
/// `Disabled`, and not a `@.socket` template.  Input order is kept.
pub fn collect_togglable_sockets(units: &Vec<SystemdUnit>) -> (r: Vec<SystemdUnit>)
    ensures
        r@ == togglable_in(units@, UnitType::Socket, "@.socket"@),
{
    collect_togglable(units, UnitType::Socket, "@.socket")
}

/// The timers a user may toggle: type `Timer`, state `Enabled` or
/// `Disabled`, and not a `@.timer` template.  Input order is kept.
pub fn collect_togglable_timers(units: &Vec<SystemdUnit>) -> (r: Vec<SystemdUnit>)
    ensures
        r@ == togglable_in(units@, UnitType::Timer, "@.timer"@),
{
    collect_togglable(units, UnitType::Timer, "@.timer")
}

} // verus!
