//! Facts about the manager's transitions, stated over its value view and proved.
use vstd::prelude::*;
use crate::events::{EventView, StatusView};
use crate::unit::{UnitKind, UnitNameView};
use crate::units::{UnitState, payload_kind};
use crate::unitmanager::{
    activate_view, activation, cleared, deactivate_view, set_state,
    switching_scenario_text, deps_loaded, deselect_view, kind_fits,
    lemma_activated, lemma_deactivate_wf, lemma_deselect_after_deactivate, lemma_deselect_wf,
    lemma_jig_stays_current, lemma_set_state, lemma_without, load_view, registered,
    reloading_text, select_view, selection, state_of, status, unit_of, unload_view,
    unloading_text, wf, ManagerView, activate_jig_view, activate_scenario_view, deselect_one as
    deselect_one_view, failed, jig_default, jig_switched, scenario_activation, switching_jig_text,
};

verus! {

/// The unit at position `i` counts as the running or chosen scenario.
pub open spec fn scenario_in_play(v: ManagerView, i: int) -> bool {
    &&& v.units[i].desc.id@.kind == UnitKind::Scenario
    &&& (v.units[i].state == UnitState::Active || (v.units[i].state == UnitState::Selected
        && v.current_scenario == Some(v.units[i].desc.id@)))
}

/// There Can Only Be One: in every reachable state at most one jig is active, and at most
/// one scenario is active or selected and current.
pub proof fn only_one_jig_and_one_scenario(v: ManagerView)
    requires
        wf(v),
    ensures
        forall|i: int, j: int|
            0 <= i < v.units.len() && 0 <= j < v.units.len() && (#[trigger] v.units[i]).desc.id@.kind
                == UnitKind::Jig && v.units[i].state == UnitState::Active && (
            #[trigger] v.units[j]).desc.id@.kind == UnitKind::Jig && v.units[j].state
                == UnitState::Active ==> i == j,
        forall|i: int, j: int|
            0 <= i < v.units.len() && 0 <= j < v.units.len() && #[trigger] scenario_in_play(v, i)
                && #[trigger] scenario_in_play(v, j) ==> i == j,
{
}

/// After `unload(n)` the unit is gone, so every lookup of `n` comes back empty.
pub proof fn unloaded_unit_is_absent(v: ManagerView, n: UnitNameView)
    requires
        wf(v),
    ensures
        !registered(unload_view(v, n).units, n),
{
    lemma_deselect_wf(v, n, unloading_text());
    lemma_without(deselect_view(v, n, unloading_text()).units, n);
}

/// A scenario is activated only while every test it lists is loaded.
pub proof fn activation_needs_the_tests(v: ManagerView, n: UnitNameView)
    requires
        wf(v),
        n.kind == UnitKind::Scenario,
        activation(v, n) is Ok,
    ensures
        registered(v.units, n),
        deps_loaded(v.units, unit_of(v.units, n).desc.payload),
{
}

/// Selecting a unit a second time, after the first selection succeeded, changes nothing and
/// announces nothing.
pub proof fn select_twice_is_select_once(v: ManagerView, n: UnitNameView)
    requires
        wf(v),
        selection(v, n) is Ok,
    ensures
        select_view(select_view(v, n), n) == select_view(v, n),
{
    let w = select_view(v, n);
    match n.kind {
        UnitKind::Internal => {},
        UnitKind::Jig => {
            if v.current_jig != Some(n) {
                lemma_jig_stays_current(v, n);
            }
        },
        UnitKind::Scenario => {
            if v.current_scenario != Some(n) {
                let v1 = match v.current_scenario {
                    Some(old) => deselect_one_view(v, old, switching_scenario_text()),
                    None => v,
                };
                if v.current_scenario is Some {
                    lemma_set_state(v.units, v.current_scenario->Some_0, UnitState::Loaded);
                }
                lemma_set_state(v1.units, n, UnitState::Selected);
                assert(registered(w.units, n));
                assert(w.current_scenario == Some(n));
            }
        },
        _ => {
            lemma_set_state(v.units, n, UnitState::Selected);
        },
    }
}

/// Deactivating a unit just activated returns it to `Selected` and announces exactly one
/// successful deactivation. A loaded jig counts as activated even where its default
/// scenario failed, since it stays current and active.
pub proof fn deactivate_undoes_activate(v: ManagerView, n: UnitNameView, reason: Seq<char>)
    requires
        wf(v),
        n.kind == UnitKind::Jig || n.kind == UnitKind::Scenario || n.kind == UnitKind::Interface,
        activation(v, n) is Ok || (n.kind == UnitKind::Jig && registered(v.units, n)),
    ensures
        state_of(deactivate_view(activate_view(v, n), n, reason).units, n) == Some(
            UnitState::Selected,
        ),
        deactivate_view(activate_view(v, n), n, reason).events == activate_view(v, n).events.push(
            status(n, StatusView::DeactivateSuccess(reason)),
        ),
{
    let w = activate_view(v, n);
    lemma_activated(v, n);
    lemma_set_state(w.units, n, UnitState::Selected);
}

/// The registry and the current slots, without what was announced.
pub open spec fn same_state(a: ManagerView, b: ManagerView) -> bool {
    a.units == b.units && a.current_jig == b.current_jig && a.current_scenario == b.current_scenario
}

/// Loading a description over a loaded unit of the same name leaves the manager as
/// unloading that unit and then loading the description would.
pub proof fn reload_is_unload_then_load(v: ManagerView, d: crate::units::UnitDescription, k: UnitKind)
    requires
        wf(v),
        kind_fits(d, k),
    ensures
        same_state(load_view(v, d, k), load_view(unload_view(v, d.id@), d, k)),
{
    let n = d.id@;
    let u = unload_view(v, n);
    lemma_deselect_wf(v, n, unloading_text());
    lemma_without(deselect_view(v, n, unloading_text()).units, n);
    assert(cleared(u, n) == u);
    if registered(v.units, n) {
        lemma_deactivate_wf(v, n, reloading_text());
        lemma_deselect_after_deactivate(v, n, reloading_text(), unloading_text());
        assert(cleared(v, n).units == u.units);
    } else {
        assert forall|i: int| 0 <= i < v.units.len() implies (#[trigger] v.units[i]).desc.id@ != n by {}
        assert(set_state(v.units, n, UnitState::Loaded) =~= v.units);
        assert(u.units == v.units);
    }
}


/// `b` extends `a`'s events, names the same units, and every unit it newly announces as
/// active is registered in `b`.
pub open spec fn announces_loaded(a: ManagerView, b: ManagerView) -> bool {
    &&& a.events.len() <= b.events.len()
    &&& b.events.subrange(0, a.events.len() as int) == a.events
    &&& forall|m: UnitNameView| #[trigger] registered(b.units, m) == registered(a.units, m)
    &&& forall|k: int|
        a.events.len() <= k < b.events.len() ==> (#[trigger] b.events[k] matches EventView::Status(
            m,
            StatusView::Active,
        ) ==> registered(b.units, m))
}

proof fn lemma_announces_trans(a: ManagerView, b: ManagerView, c: ManagerView)
    requires
        announces_loaded(a, b),
        announces_loaded(b, c),
    ensures
        announces_loaded(a, c),
{
    assert(c.events.subrange(0, a.events.len() as int) =~= a.events) by {
        assert forall|k: int| 0 <= k < a.events.len() implies c.events[k] == a.events[k] by {
            assert(c.events.subrange(0, b.events.len() as int)[k] == b.events[k]);
            assert(b.events.subrange(0, a.events.len() as int)[k] == a.events[k]);
        }
    }
    assert forall|k: int| a.events.len() <= k < c.events.len() implies (#[trigger] c.events[k] matches EventView::Status(
        m,
        StatusView::Active,
    ) ==> registered(c.units, m)) by {
        if k < b.events.len() {
            assert(c.events.subrange(0, b.events.len() as int)[k] == b.events[k]);
        }
    }
}

proof fn lemma_push_other(v: ManagerView, w: ManagerView, e: EventView)
    requires
        w.units == v.units,
        w.events == v.events.push(e),
        !(e matches EventView::Status(_, StatusView::Active)),
    ensures
        announces_loaded(v, w),
{
    assert(w.events.subrange(0, v.events.len() as int) =~= v.events);
}

proof fn lemma_deactivate_announces(v: ManagerView, n: UnitNameView, r: Seq<char>)
    requires
        wf(v),
    ensures
        announces_loaded(v, deactivate_view(v, n, r)),
{
    let w = deactivate_view(v, n, r);
    lemma_set_state(v.units, n, UnitState::Selected);
    assert(w.events.subrange(0, v.events.len() as int) =~= v.events);
}

proof fn lemma_deselect_one_announces(v: ManagerView, n: UnitNameView, r: Seq<char>)
    requires
        wf(v),
    ensures
        announces_loaded(v, deselect_one_view(v, n, r)),
{
    let w = deselect_one_view(v, n, r);
    lemma_set_state(v.units, n, UnitState::Loaded);
    assert(w.events.subrange(0, v.events.len() as int) =~= v.events);
}

/// Putting a registered unit in a state and announcing it as active.
proof fn lemma_promote_announces(v: ManagerView, w: ManagerView, n: UnitNameView, st: UnitState)
    requires
        registered(v.units, n),
        w.units == set_state(v.units, n, st),
        w.events == v.events.push(status(n, StatusView::Active)),
    ensures
        announces_loaded(v, w),
{
    lemma_set_state(v.units, n, st);
    assert(w.events.subrange(0, v.events.len() as int) =~= v.events);
}

proof fn lemma_scenario_announces(v: ManagerView, n: UnitNameView)
    requires
        wf(v),
    ensures
        announces_loaded(v, activate_scenario_view(v, n)),
{
    let w = activate_scenario_view(v, n);
    match scenario_activation(v, n) {
        Err(e) => {
            lemma_push_other(v, w, status(n, StatusView::ActiveFailed(crate::unitmanager::activate_error_text(e))));
        },
        Ok(_) => {
            let v1 = if v.current_scenario is Some && v.current_scenario != Some(n) {
                deactivate_view(v, v.current_scenario->Some_0, switching_scenario_text())
            } else {
                v
            };
            if v.current_scenario is Some && v.current_scenario != Some(n) {
                lemma_deactivate_announces(v, v.current_scenario->Some_0, switching_scenario_text());
            } else {
                assert(v.events.subrange(0, v.events.len() as int) =~= v.events);
            }
            lemma_promote_announces(v1, w, n, UnitState::Active);
            lemma_announces_trans(v, v1, w);
        },
    }
}

proof fn lemma_jig_announces(v: ManagerView, n: UnitNameView)
    requires
        wf(v),
    ensures
        announces_loaded(v, activate_jig_view(v, n)),
{
    let w = activate_jig_view(v, n);
    if n.kind != UnitKind::Jig || !registered(v.units, n) {
        lemma_push_other(v, w, status(n, StatusView::ActiveFailed(crate::unitmanager::not_found_text())));
    } else {
        let v1 = match v.current_jig {
            Some(old) => deactivate_view(v, old, switching_jig_text()),
            None => v,
        };
        if v.current_jig is Some {
            lemma_deactivate_announces(v, v.current_jig->Some_0, switching_jig_text());
            lemma_deactivate_wf(v, v.current_jig->Some_0, switching_jig_text());
        } else {
            assert(v.events.subrange(0, v.events.len() as int) =~= v.events);
        }
        let x = jig_switched(v, n);
        lemma_promote_announces(v1, x, n, UnitState::Active);
        lemma_announces_trans(v, v1, x);
        match jig_default(v, n) {
            Some(s) => {
                crate::unitmanager::lemma_activated_jig_wf(v, n);
                lemma_scenario_announces(x, s);
                let y = activate_scenario_view(x, s);
                match scenario_activation(x, s) {
                    Ok(_) => {},
                    Err(e) => {
                        lemma_push_other(
                            y,
                            w,
                            status(n, StatusView::ActiveFailed(crate::unitmanager::activate_error_text(e))),
                        );
                        lemma_announces_trans(x, y, w);
                    },
                }
                lemma_announces_trans(v, x, w);
            },
            None => {},
        }
    }
}

/// Every unit that an activation or a selection announces as active is, right then, in the
/// registry.
pub proof fn announced_active_units_are_loaded(v: ManagerView, n: UnitNameView)
    requires
        wf(v),
    ensures
        announces_loaded(v, activate_view(v, n)),
        announces_loaded(v, select_view(v, n)),
{
    assert(v.events.subrange(0, v.events.len() as int) =~= v.events);
    let a = activate_view(v, n);
    match n.kind {
        UnitKind::Jig => lemma_jig_announces(v, n),
        UnitKind::Scenario => lemma_scenario_announces(v, n),
        UnitKind::Internal => {},
        _ => match activation(v, n) {
            Ok(_) => lemma_promote_announces(v, a, n, UnitState::Active),
            Err(e) => lemma_push_other(v, a, status(n, StatusView::ActiveFailed(crate::unitmanager::activate_error_text(e)))),
        },
    }
    let b = select_view(v, n);
    match n.kind {
        UnitKind::Internal => {},
        UnitKind::Jig => if v.current_jig != Some(n) {
            lemma_jig_announces(v, n);
        },
        UnitKind::Scenario => match selection(v, n) {
            Err(e) => lemma_push_other(v, b, status(n, StatusView::ActiveFailed(crate::unitmanager::select_error_text(e)))),
            Ok(_) => if v.current_scenario != Some(n) {
                let v1 = match v.current_scenario {
                    Some(old) => deselect_one_view(v, old, switching_scenario_text()),
                    None => v,
                };
                if v.current_scenario is Some {
                    lemma_deselect_one_announces(v, v.current_scenario->Some_0, switching_scenario_text());
                }
                lemma_promote_announces(v1, b, n, UnitState::Selected);
                lemma_announces_trans(v, v1, b);
            },
        },
        _ => if !registered(v.units, n) {
            lemma_push_other(v, b, status(n, StatusView::ActiveFailed(crate::unitmanager::not_found_text())));
        } else if state_of(v.units, n) == Some(UnitState::Loaded) {
            lemma_promote_announces(v, b, n, UnitState::Selected);
        },
    }
}

/// When output to an active interface fails, that interface alone goes back to `Selected`,
/// stays loaded, and exactly one successful deactivation giving the failure is announced;
/// every other unit, both current slots and the queued messages are untouched.
pub proof fn output_failure_closes_only_that_interface(v: ManagerView, to: UnitNameView, error: Seq<char>)
    requires
        wf(v),
        to.kind == UnitKind::Interface,
        state_of(v.units, to) == Some(UnitState::Active),
    ensures
        ({
            let w = deactivate_view(v, to, "communication error: "@ + error);
            &&& registered(w.units, to)
            &&& state_of(w.units, to) == Some(UnitState::Selected)
            &&& w.events == v.events.push(
                status(to, StatusView::DeactivateSuccess("communication error: "@ + error)),
            )
            &&& forall|m: UnitNameView| m != to ==> #[trigger] state_of(w.units, m) == state_of(v.units, m)
            &&& w.current_jig == v.current_jig
            &&& w.current_scenario == v.current_scenario
            &&& w.outgoing == v.outgoing
        }),
{
    lemma_set_state(v.units, to, UnitState::Selected);
}

} // verus!
