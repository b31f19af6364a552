//! The unit manager: the registry of loaded units, the current jig and scenario, and the
//! lifecycle transitions between them.
use vstd::prelude::*;
use vstd::string::StringExecFns;
use crate::events::{
    EventView, FieldType, LogEntry, ManagerControlMessage, ManagerControlMessageContents,
    MessageView, names_view, LogLevel, ManagerStatusMessage, StatusView, UnitEvent, UnitStatus,
    UnitStatusEvent,
};
use crate::runner::{ScenarioPlan, TestStep};
use crate::unit::{UnitKind, UnitName, UnitNameView};
use crate::units::{Unit, UnitDescription, UnitPayload, UnitState, default_scenario, payload_kind, test_names};

verus! {

/// Why a unit could not be selected.
#[derive(PartialEq, Eq, Structural, Clone, Copy, Debug)]
pub enum UnitSelectError {
    UnitNotFound,
    DependencyMissing,
}

/// Why a unit could not be activated.
#[derive(PartialEq, Eq, Structural, Clone, Copy, Debug)]
pub enum UnitActivateError {
    UnitNotFound,
    DependencyMissing,
    /// Tests are activated by the scenario that runs them, never directly.
    NotActivatable,
}

/// Why a description could not be loaded.
#[derive(PartialEq, Eq, Structural, Clone, Copy, Debug)]
pub enum LoadError {
    /// The description's name and payload name different kinds, or not the kind asked for.
    WrongKind,
    /// A scenario lists a test that is not loaded.
    DependencyMissing,
}

/// A message queued for an interface.
#[derive(Debug, Clone)]
pub struct Delivery {
    pub to: UnitName,
    pub message: ManagerStatusMessage,
}

/// A queued message as values: its recipient and what it says.
pub struct DeliveryView {
    pub to: UnitNameView,
    pub message: MessageView,
}

impl View for Delivery {
    type V = DeliveryView;

    open spec fn view(&self) -> DeliveryView {
        DeliveryView { to: self.to@, message: self.message@ }
    }
}

/// The manager as values: registry, singleton slots, and what it has emitted so far.
pub struct ManagerView {
    pub units: Seq<Unit>,
    pub current_jig: Option<UnitNameView>,
    pub current_scenario: Option<UnitNameView>,
    /// Events for the bus, oldest first.
    pub events: Seq<EventView>,
    /// Messages for interfaces, oldest first.
    pub outgoing: Seq<DeliveryView>,
    /// Scenarios handed to the runner, oldest first.
    pub starts: Seq<UnitNameView>,
    /// The time the caller last gave, used to stamp log lines.
    pub now: u64,
}

pub open spec fn opt_view(o: Option<UnitName>) -> Option<UnitNameView> {
    match o {
        Some(n) => Some(n@),
        None => None,
    }
}

pub open spec fn registered(us: Seq<Unit>, n: UnitNameView) -> bool {
    exists|i: int| 0 <= i < us.len() && (#[trigger] us[i]).desc.id@ == n
}

pub open spec fn unique(us: Seq<Unit>) -> bool {
    forall|i: int, j: int|
        0 <= i < us.len() && 0 <= j < us.len() && (#[trigger] us[i]).desc.id@ == (
        #[trigger] us[j]).desc.id@ ==> i == j
}

pub open spec fn index_of(us: Seq<Unit>, n: UnitNameView) -> int {
    choose|i: int| 0 <= i < us.len() && (#[trigger] us[i]).desc.id@ == n
}

/// The unit registered under `n`; meaningful only where `registered(us, n)`.
pub open spec fn unit_of(us: Seq<Unit>, n: UnitNameView) -> Unit {
    us[index_of(us, n)]
}

pub open spec fn state_of(us: Seq<Unit>, n: UnitNameView) -> Option<UnitState> {
    if registered(us, n) {
        Some(unit_of(us, n).state)
    } else {
        None
    }
}

/// The registry with the unit named `n`, if any, put in state `st`.
pub open spec fn set_state(us: Seq<Unit>, n: UnitNameView, st: UnitState) -> Seq<Unit> {
    us.map_values(|u: Unit| if u.desc.id@ == n { Unit { desc: u.desc, state: st } } else { u })
}

pub open spec fn status(n: UnitNameView, s: StatusView) -> EventView {
    EventView::Status(n, s)
}

/// The registry's invariant: names are unique, each unit's name has its payload's kind, an
/// active jig or scenario is the current one, and a current unit is loaded and not passive.
pub open spec fn wf(v: ManagerView) -> bool {
    &&& unique(v.units)
    &&& forall|i: int|
        0 <= i < v.units.len() ==> (#[trigger] v.units[i]).desc.id@.kind == payload_kind(
            v.units[i].desc.payload,
        )
    &&& forall|i: int|
        0 <= i < v.units.len() && (#[trigger] v.units[i]).desc.id@.kind == UnitKind::Jig
            && v.units[i].state == UnitState::Active ==> v.current_jig == Some(
            v.units[i].desc.id@,
        )
    &&& forall|i: int|
        0 <= i < v.units.len() && (#[trigger] v.units[i]).desc.id@.kind == UnitKind::Scenario
            && v.units[i].state == UnitState::Active ==> v.current_scenario == Some(
            v.units[i].desc.id@,
        )
    &&& v.current_jig matches Some(j) ==> j.kind == UnitKind::Jig && registered(v.units, j) && state_of(
        v.units,
        j,
    ) != Some(UnitState::Loaded)
    &&& v.current_scenario matches Some(s) ==> s.kind == UnitKind::Scenario && registered(v.units, s)
        && state_of(v.units, s) != Some(UnitState::Loaded)
}

pub open spec fn clear_if(o: Option<UnitNameView>, n: UnitNameView) -> Option<UnitNameView> {
    if o == Some(n) {
        None
    } else {
        o
    }
}

pub open spec fn deselected_text() -> Seq<char> {
    "jig is deselecting"@
}

pub open spec fn not_found_text() -> Seq<char> {
    "unit not found"@
}

/// Puts `n` back to `Loaded`, clears it from the slots, and announces it if it is registered.
pub open spec fn deselect_one(v: ManagerView, n: UnitNameView, reason: Seq<char>) -> ManagerView {
    ManagerView {
        units: set_state(v.units, n, UnitState::Loaded),
        current_jig: clear_if(v.current_jig, n),
        current_scenario: clear_if(v.current_scenario, n),
        events: if registered(v.units, n) {
            v.events.push(status(n, StatusView::Deselected(reason)))
        } else {
            v.events
        },
        ..v
    }
}

/// The default scenario of the jig registered as `n`, if it names one.
pub open spec fn jig_default(v: ManagerView, n: UnitNameView) -> Option<UnitNameView> {
    if registered(v.units, n) {
        default_scenario(unit_of(v.units, n).desc.payload)
    } else {
        None
    }
}

/// `deselect(n, reason)`: deselecting the current jig first deselects its default scenario.
pub open spec fn deselect_view(v: ManagerView, n: UnitNameView, reason: Seq<char>) -> ManagerView {
    if v.current_jig == Some(n) && jig_default(v, n) is Some {
        deselect_one(deselect_one(v, jig_default(v, n)->Some_0, deselected_text()), n, reason)
    } else {
        deselect_one(v, n, reason)
    }
}

/// `deactivate(n, reason)`: an active unit goes back to `Selected`; the slots stay. An
/// internal name has nothing to stop and always succeeds.
pub open spec fn deactivate_view(v: ManagerView, n: UnitNameView, reason: Seq<char>) -> ManagerView {
    if registered(v.units, n) {
        ManagerView {
            units: if state_of(v.units, n) == Some(UnitState::Active) {
                set_state(v.units, n, UnitState::Selected)
            } else {
                v.units
            },
            events: v.events.push(status(n, StatusView::DeactivateSuccess(reason))),
            ..v
        }
    } else if n.kind == UnitKind::Internal {
        ManagerView { events: v.events.push(status(n, StatusView::DeactivateSuccess(reason))), ..v }
    } else {
        ManagerView {
            events: v.events.push(status(n, StatusView::DeactivateFailure(not_found_text()))),
            ..v
        }
    }
}

pub open spec fn missing_text() -> Seq<char> {
    "a listed test is not loaded"@
}

pub open spec fn not_activatable_text() -> Seq<char> {
    "activated only by its scenario"@
}

pub open spec fn switching_scenario_text() -> Seq<char> {
    "switching to a new scenario"@
}

pub open spec fn switching_jig_text() -> Seq<char> {
    "switching to a different jig"@
}

pub open spec fn activate_error_text(e: UnitActivateError) -> Seq<char> {
    match e {
        UnitActivateError::UnitNotFound => not_found_text(),
        UnitActivateError::DependencyMissing => missing_text(),
        UnitActivateError::NotActivatable => not_activatable_text(),
    }
}

pub open spec fn select_error_text(e: UnitSelectError) -> Seq<char> {
    match e {
        UnitSelectError::UnitNotFound => not_found_text(),
        UnitSelectError::DependencyMissing => missing_text(),
    }
}

/// Every test that payload `p` lists is registered in `us`.
pub open spec fn deps_loaded(us: Seq<Unit>, p: UnitPayload) -> bool {
    forall|k: int| 0 <= k < test_names(p).len() ==> registered(us, #[trigger] test_names(p)[k])
}

pub open spec fn tests_present(v: ManagerView, n: UnitNameView) -> bool {
    deps_loaded(v.units, unit_of(v.units, n).desc.payload)
}

/// Announces that `n` failed to become active, with `why`.
pub open spec fn failed(v: ManagerView, n: UnitNameView, why: Seq<char>) -> ManagerView {
    ManagerView { events: v.events.push(status(n, StatusView::ActiveFailed(why))), ..v }
}

pub open spec fn scenario_activation(v: ManagerView, n: UnitNameView) -> Result<(), UnitActivateError> {
    if n.kind != UnitKind::Scenario || !registered(v.units, n) {
        Err(UnitActivateError::UnitNotFound)
    } else if !tests_present(v, n) {
        Err(UnitActivateError::DependencyMissing)
    } else {
        Ok(())
    }
}

/// Activating a scenario deactivates the current one, if it is another, and makes `n`
/// current and active.
pub open spec fn activate_scenario_view(v: ManagerView, n: UnitNameView) -> ManagerView {
    match scenario_activation(v, n) {
        Err(e) => failed(v, n, activate_error_text(e)),
        Ok(_) => {
            let v1 = if v.current_scenario is Some && v.current_scenario != Some(n) {
                deactivate_view(v, v.current_scenario->Some_0, switching_scenario_text())
            } else {
                v
            };
            ManagerView {
                units: set_state(v1.units, n, UnitState::Active),
                current_scenario: Some(n),
                events: v1.events.push(status(n, StatusView::Active)),
                ..v1
            }
        },
    }
}

/// The jig `n` made current and active, after the old current jig was deactivated.
pub open spec fn jig_switched(v: ManagerView, n: UnitNameView) -> ManagerView {
    let v1 = match v.current_jig {
        Some(old) => deactivate_view(v, old, switching_jig_text()),
        None => v,
    };
    ManagerView {
        units: set_state(v1.units, n, UnitState::Active),
        current_jig: Some(n),
        events: v1.events.push(status(n, StatusView::Active)),
        ..v1
    }
}

pub open spec fn jig_activation(v: ManagerView, n: UnitNameView) -> Result<(), UnitActivateError> {
    if n.kind != UnitKind::Jig || !registered(v.units, n) {
        Err(UnitActivateError::UnitNotFound)
    } else {
        match jig_default(v, n) {
            Some(s) => scenario_activation(jig_switched(v, n), s),
            None => Ok(()),
        }
    }
}

/// Activating a jig switches to it, then activates its default scenario, if it names one.
/// Where that scenario fails, the jig's activation is announced as failed too, but the jig
/// stays current.
pub open spec fn activate_jig_view(v: ManagerView, n: UnitNameView) -> ManagerView {
    if n.kind != UnitKind::Jig || !registered(v.units, n) {
        failed(v, n, not_found_text())
    } else {
        match jig_default(v, n) {
            Some(s) => {
                let w = activate_scenario_view(jig_switched(v, n), s);
                match scenario_activation(jig_switched(v, n), s) {
                    Ok(_) => w,
                    Err(e) => failed(w, n, activate_error_text(e)),
                }
            },
            None => jig_switched(v, n),
        }
    }
}

/// The outcome of `activate(n)`.
pub open spec fn activation(v: ManagerView, n: UnitNameView) -> Result<(), UnitActivateError> {
    match n.kind {
        UnitKind::Jig => jig_activation(v, n),
        UnitKind::Scenario => scenario_activation(v, n),
        UnitKind::Internal => Ok(()),
        UnitKind::Interface => if registered(v.units, n) {
            Ok(())
        } else {
            Err(UnitActivateError::UnitNotFound)
        },
        _ => if registered(v.units, n) {
            Err(UnitActivateError::NotActivatable)
        } else {
            Err(UnitActivateError::UnitNotFound)
        },
    }
}

/// `activate(n)`, dispatched on the kind of `n`.
pub open spec fn activate_view(v: ManagerView, n: UnitNameView) -> ManagerView {
    match n.kind {
        UnitKind::Jig => activate_jig_view(v, n),
        UnitKind::Scenario => activate_scenario_view(v, n),
        UnitKind::Internal => v,
        _ => match activation(v, n) {
            Ok(_) => ManagerView {
                units: set_state(v.units, n, UnitState::Active),
                events: v.events.push(status(n, StatusView::Active)),
                ..v
            },
            Err(e) => failed(v, n, activate_error_text(e)),
        },
    }
}

pub open spec fn to_select_error(r: Result<(), UnitActivateError>) -> Result<(), UnitSelectError> {
    match r {
        Ok(_) => Ok(()),
        Err(UnitActivateError::DependencyMissing) => Err(UnitSelectError::DependencyMissing),
        Err(_) => Err(UnitSelectError::UnitNotFound),
    }
}

/// The outcome of `select(n)`.
pub open spec fn selection(v: ManagerView, n: UnitNameView) -> Result<(), UnitSelectError> {
    match n.kind {
        UnitKind::Internal => Ok(()),
        UnitKind::Jig => if v.current_jig == Some(n) {
            Ok(())
        } else {
            to_select_error(jig_activation(v, n))
        },
        UnitKind::Scenario => if !registered(v.units, n) {
            Err(UnitSelectError::UnitNotFound)
        } else if v.current_scenario == Some(n) {
            Ok(())
        } else if !tests_present(v, n) {
            Err(UnitSelectError::DependencyMissing)
        } else {
            Ok(())
        },
        _ => if registered(v.units, n) {
            Ok(())
        } else {
            Err(UnitSelectError::UnitNotFound)
        },
    }
}

/// `select(n)`: a jig is selected by activating it; a scenario becomes the current one,
/// deselecting the old; other units go from `Loaded` to `Selected`. Selecting what is
/// already selected changes nothing.
pub open spec fn select_view(v: ManagerView, n: UnitNameView) -> ManagerView {
    match n.kind {
        UnitKind::Internal => v,
        UnitKind::Jig => if v.current_jig == Some(n) {
            v
        } else {
            activate_jig_view(v, n)
        },
        UnitKind::Scenario => match selection(v, n) {
            Err(e) => failed(v, n, select_error_text(e)),
            Ok(_) => if v.current_scenario == Some(n) {
                v
            } else {
                let v1 = match v.current_scenario {
                    Some(old) => deselect_one(v, old, switching_scenario_text()),
                    None => v,
                };
                ManagerView {
                    units: set_state(v1.units, n, UnitState::Selected),
                    current_scenario: Some(n),
                    events: v1.events.push(status(n, StatusView::Active)),
                    ..v1
                }
            },
        },
        _ => if !registered(v.units, n) {
            failed(v, n, not_found_text())
        } else if state_of(v.units, n) == Some(UnitState::Loaded) {
            ManagerView {
                units: set_state(v.units, n, UnitState::Selected),
                events: v.events.push(status(n, StatusView::Active)),
                ..v
            }
        } else {
            v
        },
    }
}

pub proof fn lemma_promote(v: ManagerView, n: UnitNameView, st: UnitState)
    requires
        wf(v),
        registered(v.units, n),
        st != UnitState::Loaded,
        n.kind == UnitKind::Jig || n.kind == UnitKind::Scenario,
        forall|i: int|
            0 <= i < v.units.len() && (#[trigger] v.units[i]).desc.id@.kind == n.kind
                && v.units[i].state == UnitState::Active ==> v.units[i].desc.id@ == n,
    ensures
        n.kind == UnitKind::Scenario ==> wf(
            ManagerView { units: set_state(v.units, n, st), current_scenario: Some(n), ..v },
        ),
        n.kind == UnitKind::Jig ==> wf(
            ManagerView { units: set_state(v.units, n, st), current_jig: Some(n), ..v },
        ),
{
    lemma_set_state(v.units, n, st);
    let us = set_state(v.units, n, st);
    assert forall|i: int| 0 <= i < us.len() implies (#[trigger] us[i]).desc.id@.kind == payload_kind(
        us[i].desc.payload,
    ) by {
        assert(us[i].desc == v.units[i].desc);
    }
    assert forall|i: int|
        0 <= i < us.len() && (#[trigger] us[i]).desc.id@.kind != n.kind && us[i].state
            == UnitState::Active implies v.units[i].state == UnitState::Active by {
    }
}

/// Putting a unit that is neither a jig nor a scenario in any state keeps the invariant.
proof fn lemma_set_other(v: ManagerView, n: UnitNameView, st: UnitState)
    requires
        wf(v),
        n.kind != UnitKind::Jig,
        n.kind != UnitKind::Scenario,
    ensures
        wf(ManagerView { units: set_state(v.units, n, st), ..v }),
{
    lemma_set_state(v.units, n, st);
    let us = set_state(v.units, n, st);
    assert forall|i: int| 0 <= i < us.len() implies (#[trigger] us[i]).desc.id@.kind == payload_kind(
        us[i].desc.payload,
    ) by {
        assert(us[i].desc == v.units[i].desc);
    }
    assert forall|i: int|
        0 <= i < us.len() && ((#[trigger] us[i]).desc.id@.kind == UnitKind::Jig || us[i].desc.id@.kind
            == UnitKind::Scenario) && us[i].state == UnitState::Active implies v.units[i].state
        == UnitState::Active by {
    }
}

/// The registry without the unit named `n`.
pub open spec fn without(us: Seq<Unit>, n: UnitNameView) -> Seq<Unit> {
    if registered(us, n) {
        us.remove(index_of(us, n))
    } else {
        us
    }
}

pub open spec fn unloading_text() -> Seq<char> {
    "unloading"@
}

pub open spec fn reloading_text() -> Seq<char> {
    "reloading"@
}

pub open spec fn wrong_kind_text() -> Seq<char> {
    "description does not match the unit kind"@
}

/// `unload(n)`: deselect `n`, then drop it from the registry.
pub open spec fn unload_view(v: ManagerView, n: UnitNameView) -> ManagerView {
    let w = deselect_view(v, n, unloading_text());
    ManagerView { units: without(w.units, n), ..w }
}

/// What loading over an existing unit does first: deactivate, deselect and drop it.
pub open spec fn cleared(v: ManagerView, n: UnitNameView) -> ManagerView {
    if registered(v.units, n) {
        let w = deselect_view(deactivate_view(v, n, reloading_text()), n, reloading_text());
        ManagerView { units: without(w.units, n), ..w }
    } else {
        v
    }
}

/// The description's name and payload are both of kind `k`.
pub open spec fn kind_fits(d: UnitDescription, k: UnitKind) -> bool {
    d.id@.kind == k && payload_kind(d.payload) == k
}

/// The outcome of loading `d` as a unit of kind `k`.
pub open spec fn loading(v: ManagerView, d: UnitDescription, k: UnitKind) -> Result<(), LoadError> {
    if !kind_fits(d, k) {
        Err(LoadError::WrongKind)
    } else if !deps_loaded(cleared(v, d.id@).units, d.payload) {
        Err(LoadError::DependencyMissing)
    } else {
        Ok(())
    }
}

/// Loading `d`: a unit already registered under its name is replaced; the new unit enters
/// as `Loaded`. A description that does not fit is announced as incompatible.
pub open spec fn load_view(v: ManagerView, d: UnitDescription, k: UnitKind) -> ManagerView {
    if !kind_fits(d, k) {
        ManagerView {
            events: v.events.push(status(d.id@, StatusView::UnitIncompatible(wrong_kind_text()))),
            ..v
        }
    } else {
        let w = cleared(v, d.id@);
        if !deps_loaded(w.units, d.payload) {
            ManagerView {
                events: w.events.push(status(d.id@, StatusView::UnitIncompatible(missing_text()))),
                ..w
            }
        } else {
            ManagerView {
                units: w.units.push(Unit { desc: d, state: UnitState::Loaded }),
                events: w.events.push(status(d.id@, StatusView::Loaded)),
                ..w
            }
        }
    }
}

/// The position in `us` of the unit at position `i` of `without(us, n)`.
pub open spec fn skip(us: Seq<Unit>, n: UnitNameView, i: int) -> int {
    if registered(us, n) && i >= index_of(us, n) {
        i + 1
    } else {
        i
    }
}

pub proof fn lemma_without(us: Seq<Unit>, n: UnitNameView)
    requires
        unique(us),
    ensures
        unique(without(us, n)),
        !registered(without(us, n), n),
        forall|m: UnitNameView|
            m != n ==> #[trigger] registered(without(us, n), m) == registered(us, m),
        forall|m: UnitNameView|
            m != n && registered(us, m) ==> #[trigger] state_of(without(us, n), m) == state_of(
                us,
                m,
            ),
        forall|i: int|
            0 <= i < without(us, n).len() ==> 0 <= skip(us, n, i) < us.len() && (
            #[trigger] without(us, n)[i]) == us[skip(us, n, i)],
{
    if registered(us, n) {
        let k = index_of(us, n);
        let r = us.remove(k);
        assert(r.len() == us.len() - 1);
        assert forall|i: int| 0 <= i < r.len() implies #[trigger] r[i] == us[if i < k {
            i
        } else {
            i + 1
        }] by {}
        assert forall|i: int, j: int|
            0 <= i < r.len() && 0 <= j < r.len() && (#[trigger] r[i]).desc.id@ == (
            #[trigger] r[j]).desc.id@ implies i == j by {
            let a = if i < k {
                i
            } else {
                i + 1
            };
            let b = if j < k {
                j
            } else {
                j + 1
            };
            assert(us[a].desc.id@ == us[b].desc.id@);
        }
        assert(!registered(r, n)) by {
            if registered(r, n) {
                let i = choose|i: int| 0 <= i < r.len() && (#[trigger] r[i]).desc.id@ == n;
                let a = if i < k {
                    i
                } else {
                    i + 1
                };
                assert(us[a].desc.id@ == n);
            }
        }
        assert forall|m: UnitNameView| m != n implies #[trigger] registered(r, m) == registered(us, m)
            && (registered(us, m) ==> state_of(r, m) == state_of(us, m)) by {
            if registered(us, m) {
                let j = choose|j: int| 0 <= j < us.len() && (#[trigger] us[j]).desc.id@ == m;
                lemma_index_of(us, m, j);
                assert(j != k);
                let i = if j < k {
                    j
                } else {
                    j - 1
                };
                assert(r[i] == us[j]);
                lemma_index_of(r, m, i);
            }
            if registered(r, m) {
                let i = choose|i: int| 0 <= i < r.len() && (#[trigger] r[i]).desc.id@ == m;
                let a = if i < k {
                    i
                } else {
                    i + 1
                };
                assert(us[a].desc.id@ == m);
            }
        }
    }
}

/// Dropping a unit that is in neither slot keeps the invariant.
proof fn lemma_without_wf(v: ManagerView, n: UnitNameView)
    requires
        wf(v),
        v.current_jig != Some(n),
        v.current_scenario != Some(n),
    ensures
        wf(ManagerView { units: without(v.units, n), ..v }),
{
    lemma_without(v.units, n);
    let r = without(v.units, n);
    assert forall|i: int| 0 <= i < r.len() implies (#[trigger] r[i]).desc.id@.kind == payload_kind(
        r[i].desc.payload,
    ) && (r[i].desc.id@.kind == UnitKind::Jig && r[i].state == UnitState::Active ==> v.current_jig
        == Some(r[i].desc.id@)) && (r[i].desc.id@.kind == UnitKind::Scenario && r[i].state
        == UnitState::Active ==> v.current_scenario == Some(r[i].desc.id@)) by {
        assert(r[i] == v.units[skip(v.units, n, i)]);
    }
}

/// The names of the registered units of kind `k`, in registry order.
pub open spec fn names_of_kind(us: Seq<Unit>, k: UnitKind) -> Seq<UnitNameView>
    decreases us.len(),
{
    if us.len() == 0 {
        Seq::empty()
    } else {
        let p = names_of_kind(us.drop_last(), k);
        if us.last().desc.id@.kind == k {
            p.push(us.last().desc.id@)
        } else {
            p
        }
    }
}

/// The name and description of a unit, as two `Describe` messages.
pub open spec fn describe(u: Unit) -> Seq<MessageView> {
    seq![
        MessageView::Describe(u.desc.id@.kind, FieldType::Name, u.desc.id@.id, u.desc.name@),
        MessageView::Describe(
            u.desc.id@.kind,
            FieldType::Description,
            u.desc.id@.id,
            u.desc.description@,
        ),
    ]
}

/// `describe` of every registered unit of kind `k`, in registry order.
pub open spec fn describe_kind(us: Seq<Unit>, k: UnitKind) -> Seq<MessageView>
    decreases us.len(),
{
    if us.len() == 0 {
        Seq::empty()
    } else {
        let p = describe_kind(us.drop_last(), k);
        if us.last().desc.id@.kind == k {
            p + describe(us.last())
        } else {
            p
        }
    }
}

/// `describe` of each listed name that is registered, in list order.
pub open spec fn describe_listed(us: Seq<Unit>, ns: Seq<UnitNameView>) -> Seq<MessageView>
    decreases ns.len(),
{
    if ns.len() == 0 {
        Seq::empty()
    } else {
        let p = describe_listed(us, ns.drop_last());
        if registered(us, ns.last()) {
            p + describe(unit_of(us, ns.last()))
        } else {
            p
        }
    }
}

pub open spec fn addressed(to: UnitNameView, ms: Seq<MessageView>) -> Seq<DeliveryView> {
    ms.map_values(|m: MessageView| DeliveryView { to: to, message: m })
}

/// Messages `ms` addressed to each of `ns` in turn.
pub open spec fn to_each(ns: Seq<UnitNameView>, ms: Seq<MessageView>) -> Seq<DeliveryView>
    decreases ns.len(),
{
    if ns.len() == 0 {
        Seq::empty()
    } else {
        to_each(ns.drop_last(), ms) + addressed(ns.last(), ms)
    }
}

/// Messages reach an active interface and nothing else.
pub open spec fn reachable(v: ManagerView, to: UnitNameView) -> bool {
    to.kind == UnitKind::Interface && state_of(v.units, to) == Some(UnitState::Active)
}

/// The names of the active interfaces, in registry order.
pub open spec fn active_interfaces(us: Seq<Unit>) -> Seq<UnitNameView>
    decreases us.len(),
{
    if us.len() == 0 {
        Seq::empty()
    } else {
        let p = active_interfaces(us.drop_last());
        if us.last().desc.id@.kind == UnitKind::Interface && us.last().state == UnitState::Active {
            p.push(us.last().desc.id@)
        } else {
            p
        }
    }
}

/// `v` after queueing `ms` for `to`.
pub open spec fn sent(v: ManagerView, to: UnitNameView, ms: Seq<MessageView>) -> ManagerView {
    ManagerView {
        outgoing: if reachable(v, to) {
            v.outgoing + addressed(to, ms)
        } else {
            v.outgoing
        },
        ..v
    }
}

pub open spec fn hello_text() -> Seq<char> {
    "Jig/20 1.0"@
}

/// The current jig and its description, or the empty-id jig name when there is none.
pub open spec fn jig_messages(v: ManagerView) -> Seq<MessageView> {
    match v.current_jig {
        None => seq![MessageView::Jig(UnitNameView { id: Seq::empty(), kind: UnitKind::Jig })],
        Some(j) => seq![MessageView::Jig(j)] + describe(unit_of(v.units, j)),
    }
}

/// The loaded scenarios, then the name and description of each.
pub open spec fn scenarios_messages(v: ManagerView) -> Seq<MessageView> {
    seq![MessageView::Scenarios(names_of_kind(v.units, UnitKind::Scenario))] + describe_kind(
        v.units,
        UnitKind::Scenario,
    )
}

/// A scenario, the name and description of each of its loaded tests, and its test sequence;
/// or `Scenario(None)` where `s` is not a loaded scenario.
pub open spec fn scenario_messages(v: ManagerView, s: UnitNameView) -> Seq<MessageView> {
    if s.kind == UnitKind::Scenario && registered(v.units, s) {
        let ts = test_names(unit_of(v.units, s).desc.payload);
        seq![MessageView::Scenario(Some(s))] + describe_listed(v.units, ts) + seq![
            MessageView::Tests(s, ts),
        ]
    } else {
        seq![MessageView::Scenario(None)]
    }
}

pub open spec fn msgs_view(ms: Seq<ManagerStatusMessage>) -> Seq<MessageView> {
    ms.map_values(|m: ManagerStatusMessage| m@)
}

/// Queues `ms` for every active interface, in registry order.
pub open spec fn announced(v: ManagerView, ms: Seq<MessageView>) -> ManagerView {
    ManagerView {
        outgoing: v.outgoing + to_each(active_interfaces(v.units), ms),
        ..v
    }
}

/// Tells every active interface about the jig `n`, where it is loaded.
pub open spec fn announce_jig(v: ManagerView, n: UnitNameView) -> ManagerView {
    if n.kind == UnitKind::Jig && registered(v.units, n) {
        announced(v, seq![MessageView::Jig(n)] + describe(unit_of(v.units, n)))
    } else {
        v
    }
}

/// What an activated scenario is projected as: its identity, its own name and
/// description, each loaded test's name and description, and its test sequence.
pub open spec fn projection_messages(v: ManagerView, s: UnitNameView) -> Seq<MessageView> {
    let ts = test_names(unit_of(v.units, s).desc.payload);
    seq![MessageView::Scenario(Some(s))] + describe(unit_of(v.units, s)) + describe_listed(
        v.units,
        ts,
    ) + seq![MessageView::Tests(s, ts)]
}

/// Tells every active interface about the scenario `n`, where it is loaded.
pub open spec fn announce_scenario(v: ManagerView, n: UnitNameView) -> ManagerView {
    if n.kind == UnitKind::Scenario && registered(v.units, n) {
        announced(v, projection_messages(v, n))
    } else {
        v
    }
}

/// A unit's full name as text, `id.kind`.
pub open spec fn name_text(n: UnitNameView) -> Seq<char> {
    n.id + seq!['.'] + crate::unit::kind_text(n.kind)
}

/// `v` with a log line from `from`, stamped with the current time, appended to the events.
pub open spec fn logged(v: ManagerView, from: UnitNameView, lv: LogLevel, text: Seq<char>) -> ManagerView {
    ManagerView { events: v.events.push(EventView::Log(from, lv, text, v.now)), ..v }
}

pub open spec fn no_scenario_text() -> Seq<char> {
    "unable to list tests, no scenario specified and no scenario selected"@
}

pub open spec fn no_start_text() -> Seq<char> {
    "no scenario selected to start"@
}

pub open spec fn exited_text() -> Seq<char> {
    "Unit unexpectedly exited"@
}

pub open spec fn finished_text() -> Seq<char> {
    "scenario finished"@
}

pub open spec fn is_loaded_scenario(v: ManagerView, n: UnitNameView) -> bool {
    n.kind == UnitKind::Scenario && registered(v.units, n)
}

/// `Tests(opt)`: the test sequence of the named scenario, or of the current one.
pub open spec fn tests_view(v: ManagerView, to: UnitNameView, opt: Option<UnitNameView>) -> ManagerView {
    match (match opt {
        Some(n) => Some(n),
        None => v.current_scenario,
    }) {
        None => logged(v, to, LogLevel::Error, no_scenario_text()),
        Some(s) => if is_loaded_scenario(v, s) {
            sent(v, to, seq![MessageView::Tests(s, test_names(unit_of(v.units, s).desc.payload))])
        } else {
            logged(
                v,
                to,
                LogLevel::Error,
                "unable to list tests, scenario "@ + name_text(s) + " not found"@,
            )
        },
    }
}

/// `InitialGreeting`: hello, the jig, the scenarios, and the current scenario if there is one.
pub open spec fn greeting_view(v: ManagerView, to: UnitNameView) -> ManagerView {
    let v1 = sent(v, to, seq![MessageView::Hello(hello_text())]);
    let v2 = sent(v1, to, jig_messages(v1));
    let v3 = sent(v2, to, scenarios_messages(v2));
    match v3.current_scenario {
        Some(s) => sent(v3, to, scenario_messages(v3, s)),
        None => v3,
    }
}

/// `Start(opt)`: the named or current scenario is activated and handed to the runner.
pub open spec fn start_view(v: ManagerView, from: UnitNameView, opt: Option<UnitNameView>) -> ManagerView {
    match opt {
        Some(n) => if !is_loaded_scenario(v, n) {
            logged(
                v,
                from,
                LogLevel::Error,
                "unable to find scenario "@ + name_text(n) + " to start it"@,
            )
        } else {
            start_known(v, n)
        },
        None => match v.current_scenario {
            None => logged(v, from, LogLevel::Error, no_start_text()),
            Some(n) => start_known(v, n),
        },
    }
}

pub open spec fn start_known(v: ManagerView, n: UnitNameView) -> ManagerView {
    let w = activate_scenario_view(v, n);
    if scenario_activation(v, n) is Ok {
        ManagerView { starts: w.starts.push(n), ..w }
    } else {
        w
    }
}

pub open spec fn contents_view_scenario(c: ManagerControlMessageContents) -> Option<UnitNameView> {
    match c {
        ManagerControlMessageContents::Tests(Some(n)) => Some(n@),
        ManagerControlMessageContents::Start(Some(n)) => Some(n@),
        _ => None,
    }
}

/// What the manager does with a control message from `from`.
pub open spec fn request_view(v: ManagerView, from: UnitNameView, c: ManagerControlMessageContents) -> ManagerView {
    match c {
        ManagerControlMessageContents::Jig => sent(v, from, jig_messages(v)),
        ManagerControlMessageContents::Scenarios => sent(v, from, scenarios_messages(v)),
        ManagerControlMessageContents::Scenario(n) => if is_loaded_scenario(v, n@) {
            activate_view(v, n@)
        } else {
            logged(v, from, LogLevel::Error, "unable to find scenario "@ + name_text(n@))
        },
        ManagerControlMessageContents::Tests(_) => tests_view(v, from, contents_view_scenario(c)),
        ManagerControlMessageContents::Error(t) => logged(v, from, LogLevel::Error, t@),
        ManagerControlMessageContents::InitialGreeting => greeting_view(v, from),
        ManagerControlMessageContents::ChildExited => ManagerView {
            events: v.events.push(status(from, StatusView::ActiveFailed(exited_text()))),
            ..v
        },
        ManagerControlMessageContents::Unimplemented(verb, rest) => logged(
            v,
            from,
            LogLevel::Error,
            "unimplemented verb: "@ + verb@ + " (args: "@ + rest@ + ")"@,
        ),
        ManagerControlMessageContents::Log(t) => logged(v, from, LogLevel::Info, t@),
        ManagerControlMessageContents::LogError(t) => logged(v, from, LogLevel::Error, t@),
        ManagerControlMessageContents::Start(_) => start_view(v, from, contents_view_scenario(c)),
        ManagerControlMessageContents::ScenarioFinished(_, _) => if from.kind == UnitKind::Scenario {
            deactivate_view(v, from, finished_text())
        } else {
            v
        },
    }
}

/// `v` after deactivating, in order, each interface that `us` lists as active.
pub open spec fn close_interfaces(v: ManagerView, us: Seq<Unit>) -> ManagerView
    decreases us.len(),
{
    if us.len() == 0 {
        v
    } else {
        let w = close_interfaces(v, us.drop_last());
        if us.last().desc.id@.kind == UnitKind::Interface && us.last().state == UnitState::Active {
            deactivate_view(w, us.last().desc.id@, "shutting down"@)
        } else {
            w
        }
    }
}

/// On shutdown the current scenario, then the current jig, then every active interface in
/// registry order, are deactivated.
pub open spec fn shutdown_view(v: ManagerView) -> ManagerView {
    let v1 = match v.current_scenario {
        Some(s) => deactivate_view(v, s, "shutting down"@),
        None => v,
    };
    let v2 = match v1.current_jig {
        Some(j) => deactivate_view(v1, j, "shutting down"@),
        None => v1,
    };
    close_interfaces(v2, v2.units)
}

/// What the manager does with an event from the bus.
pub open spec fn process_view(v: ManagerView, e: UnitEvent) -> ManagerView {
    match e {
        UnitEvent::ManagerRequest(m) => request_view(v, m.sender@, m.contents),
        UnitEvent::Status(st) => match st.status {
            UnitStatus::Active => if st.name@.kind == UnitKind::Jig {
                announce_jig(v, st.name@)
            } else if st.name@.kind == UnitKind::Scenario {
                announce_scenario(v, st.name@)
            } else {
                v
            },
            _ => v,
        },
        UnitEvent::Log(l) => announced(v, seq![MessageView::Log(l.source@, l.level, l.text@)]),
        UnitEvent::Shutdown => shutdown_view(v),
        _ => v,
    }
}

/// The command a test unit runs; empty for other units.
pub open spec fn test_command(u: Unit) -> Seq<char> {
    match u.desc.payload {
        UnitPayload::Test { exec_start } => exec_start@,
        _ => Seq::empty(),
    }
}

/// `p` is the snapshot of the loaded scenario `s`: its tests in order with their commands,
/// its ExecStop command and its timeout.
pub open spec fn plan_of(v: ManagerView, s: UnitNameView, p: ScenarioPlan) -> bool {
    p.scenario@ == s && match unit_of(v.units, s).desc.payload {
        UnitPayload::Scenario { tests, exec_stop, timeout } => {
            &&& p.steps@.len() == tests@.len()
            &&& forall|k: int|
                0 <= k < tests@.len() ==> (#[trigger] p.steps@[k]).name == tests@[k]
                    && p.steps@[k].command@ == test_command(unit_of(v.units, tests@[k]@))
            &&& p.exec_stop == exec_stop
            &&& p.timeout == timeout
        },
        _ => false,
    }
}

pub proof fn lemma_deselect_wf(v: ManagerView, n: UnitNameView, reason: Seq<char>)
    requires
        wf(v),
    ensures
        wf(deselect_view(v, n, reason)),
{
    if v.current_jig == Some(n) && jig_default(v, n) is Some {
        lemma_deselect_one_wf(v, jig_default(v, n)->Some_0, deselected_text());
        lemma_deselect_one_wf(deselect_one(v, jig_default(v, n)->Some_0, deselected_text()), n, reason);
    } else {
        lemma_deselect_one_wf(v, n, reason);
    }
}

/// Activating a jig leaves it current, whatever becomes of its default scenario.
pub proof fn lemma_jig_stays_current(v: ManagerView, n: UnitNameView)
    requires
        wf(v),
        n.kind == UnitKind::Jig,
        registered(v.units, n),
    ensures
        activate_jig_view(v, n).current_jig == Some(n),
{
}

/// Switching to a registered jig keeps the invariant.
pub proof fn lemma_activated_jig_wf(v: ManagerView, n: UnitNameView)
    requires
        wf(v),
        n.kind == UnitKind::Jig,
        registered(v.units, n),
    ensures
        wf(jig_switched(v, n)),
{
    let v1 = match v.current_jig {
        Some(old) => deactivate_view(v, old, switching_jig_text()),
        None => v,
    };
    if v.current_jig is Some {
        lemma_deactivate_wf(v, v.current_jig->Some_0, switching_jig_text());
        lemma_set_state(v.units, v.current_jig->Some_0, UnitState::Selected);
    }
    assert forall|j: int|
        0 <= j < v1.units.len() && (#[trigger] v1.units[j]).desc.id@.kind == n.kind
            && v1.units[j].state == UnitState::Active implies v1.units[j].desc.id@ == n by {
        assert(v.units[j].state == UnitState::Active);
    }
    lemma_promote(v1, n, UnitState::Active);
}

/// A successful activation of a jig, scenario or interface leaves it active; so does the
/// activation of a loaded jig whose default scenario fails.
pub proof fn lemma_activated(v: ManagerView, n: UnitNameView)
    requires
        wf(v),
        n.kind == UnitKind::Jig || n.kind == UnitKind::Scenario || n.kind == UnitKind::Interface,
        activation(v, n) is Ok || (n.kind == UnitKind::Jig && registered(v.units, n)),
    ensures
        registered(activate_view(v, n).units, n),
        state_of(activate_view(v, n).units, n) == Some(UnitState::Active),
{
    if n.kind == UnitKind::Interface {
        lemma_set_state(v.units, n, UnitState::Active);
    } else if n.kind == UnitKind::Scenario {
        let v1 = if v.current_scenario is Some && v.current_scenario != Some(n) {
            deactivate_view(v, v.current_scenario->Some_0, switching_scenario_text())
        } else {
            v
        };
        if v.current_scenario is Some && v.current_scenario != Some(n) {
            lemma_set_state(v.units, v.current_scenario->Some_0, UnitState::Selected);
        }
        lemma_set_state(v1.units, n, UnitState::Active);
    } else {
        let v1 = match v.current_jig {
            Some(old) => deactivate_view(v, old, switching_jig_text()),
            None => v,
        };
        if v.current_jig is Some {
            lemma_set_state(v.units, v.current_jig->Some_0, UnitState::Selected);
        }
        lemma_set_state(v1.units, n, UnitState::Active);
        let w = jig_switched(v, n);
        match jig_default(v, n) {
            Some(s) => {
                let w1 = if w.current_scenario is Some && w.current_scenario != Some(s) {
                    deactivate_view(w, w.current_scenario->Some_0, switching_scenario_text())
                } else {
                    w
                };
                if w.current_scenario is Some && w.current_scenario != Some(s) {
                    lemma_set_state(w.units, w.current_scenario->Some_0, UnitState::Selected);
                }
                lemma_set_state(w1.units, s, UnitState::Active);
            },
            None => {},
        }
    }
}

/// Deselecting after a deactivation leaves registry and slots as deselecting alone would.
pub proof fn lemma_deselect_after_deactivate(v: ManagerView, n: UnitNameView, r1: Seq<char>, r2: Seq<char>)
    requires
        wf(v),
    ensures
        deselect_view(deactivate_view(v, n, r1), n, r1).units =~= deselect_view(v, n, r2).units,
        deselect_view(deactivate_view(v, n, r1), n, r1).current_jig == deselect_view(v, n, r2).current_jig,
        deselect_view(deactivate_view(v, n, r1), n, r1).current_scenario == deselect_view(v, n, r2).current_scenario,
{
    let x = deactivate_view(v, n, r1);
    lemma_set_state(v.units, n, UnitState::Selected);
    if registered(v.units, n) {
        assert(jig_default(x, n) == jig_default(v, n));
    }
    if v.current_jig == Some(n) && jig_default(v, n) is Some {
        let s = jig_default(v, n)->Some_0;
        lemma_set_state(x.units, s, UnitState::Loaded);
        lemma_set_state(v.units, s, UnitState::Loaded);
        lemma_set_state(set_state(x.units, s, UnitState::Loaded), n, UnitState::Loaded);
        lemma_set_state(set_state(v.units, s, UnitState::Loaded), n, UnitState::Loaded);
    } else {
        lemma_set_state(x.units, n, UnitState::Loaded);
        lemma_set_state(v.units, n, UnitState::Loaded);
    }
}

pub proof fn lemma_index_of(us: Seq<Unit>, n: UnitNameView, i: int)
    requires
        unique(us),
        0 <= i < us.len(),
        us[i].desc.id@ == n,
    ensures
        registered(us, n),
        index_of(us, n) == i,
        unit_of(us, n) == us[i],
        state_of(us, n) == Some(us[i].state),
{
    assert(registered(us, n));
    let j = index_of(us, n);
    assert(us[j].desc.id@ == us[i].desc.id@);
}

pub proof fn lemma_set_state(us: Seq<Unit>, n: UnitNameView, st: UnitState)
    ensures
        set_state(us, n, st).len() == us.len(),
        forall|i: int|
            0 <= i < us.len() ==> (#[trigger] set_state(us, n, st)[i]).desc == us[i].desc,
        forall|i: int|
            0 <= i < us.len() ==> (#[trigger] set_state(us, n, st)[i]).state == if us[i].desc.id@
                == n {
                st
            } else {
                us[i].state
            },
        forall|m: UnitNameView| #[trigger] registered(set_state(us, n, st), m) == registered(us, m),
        unique(us) ==> unique(set_state(us, n, st)),
        unique(us) ==> forall|m: UnitNameView|
            #[trigger] state_of(set_state(us, n, st), m) == if registered(us, m) && m == n {
                Some(st)
            } else {
                state_of(us, m)
            },
        unique(us) ==> forall|m: UnitNameView|
            registered(us, m) ==> (#[trigger] unit_of(set_state(us, n, st), m)).desc == unit_of(us, m).desc,
{
    let s = set_state(us, n, st);
    assert forall|m: UnitNameView| #[trigger] registered(s, m) == registered(us, m) by {
        if registered(us, m) {
            let i = choose|i: int| 0 <= i < us.len() && (#[trigger] us[i]).desc.id@ == m;
            assert(s[i].desc.id@ == m);
        }
        if registered(s, m) {
            let i = choose|i: int| 0 <= i < s.len() && (#[trigger] s[i]).desc.id@ == m;
            assert(us[i].desc.id@ == m);
        }
    }
    if unique(us) {
        assert forall|i: int, j: int|
            0 <= i < s.len() && 0 <= j < s.len() && (#[trigger] s[i]).desc.id@ == (
            #[trigger] s[j]).desc.id@ implies i == j by {
            assert(us[i].desc.id@ == us[j].desc.id@);
        }
        assert forall|m: UnitNameView| registered(us, m) implies (#[trigger] unit_of(s, m)).desc == unit_of(us, m).desc && state_of(s, m) == if m == n {
                Some(st)
            } else {
                state_of(us, m)
            } by {
            let i = choose|i: int| 0 <= i < us.len() && (#[trigger] us[i]).desc.id@ == m;
            lemma_index_of(us, m, i);
            assert(s[i].desc.id@ == m);
            lemma_index_of(s, m, i);
        }
        assert forall|m: UnitNameView| #[trigger] state_of(s, m) == if registered(us, m) && m == n {
                Some(st)
            } else {
                state_of(us, m)
            } by {
            if registered(us, m) {
                assert(unit_of(s, m).desc == unit_of(us, m).desc);
            }
        }
    }
}

pub proof fn lemma_deselect_one_wf(v: ManagerView, n: UnitNameView, reason: Seq<char>)
    requires
        wf(v),
    ensures
        wf(deselect_one(v, n, reason)),
{
    let w = deselect_one(v, n, reason);
    lemma_set_state(v.units, n, UnitState::Loaded);
    assert forall|i: int|
        0 <= i < w.units.len() && (#[trigger] w.units[i]).desc.id@.kind == UnitKind::Jig
            && w.units[i].state == UnitState::Active implies w.current_jig == Some(
        w.units[i].desc.id@,
    ) by {
        assert(v.units[i].state == UnitState::Active);
    }
    assert forall|i: int|
        0 <= i < w.units.len() && (#[trigger] w.units[i]).desc.id@.kind == UnitKind::Scenario
            && w.units[i].state == UnitState::Active implies w.current_scenario == Some(
        w.units[i].desc.id@,
    ) by {
        assert(v.units[i].state == UnitState::Active);
    }
    assert forall|i: int|
        0 <= i < w.units.len() implies (#[trigger] w.units[i]).desc.id@.kind == payload_kind(
        w.units[i].desc.payload,
    ) by {
        assert(w.units[i].desc == v.units[i].desc);
    }
}

pub proof fn lemma_deactivate_wf(v: ManagerView, n: UnitNameView, reason: Seq<char>)
    requires
        wf(v),
    ensures
        wf(deactivate_view(v, n, reason)),
{
    let w = deactivate_view(v, n, reason);
    lemma_set_state(v.units, n, UnitState::Selected);
    assert forall|i: int|
        0 <= i < w.units.len() && (#[trigger] w.units[i]).desc.id@.kind == UnitKind::Jig
            && w.units[i].state == UnitState::Active implies w.current_jig == Some(
        w.units[i].desc.id@,
    ) by {
        assert(v.units[i].state == UnitState::Active);
    }
    assert forall|i: int|
        0 <= i < w.units.len() && (#[trigger] w.units[i]).desc.id@.kind == UnitKind::Scenario
            && w.units[i].state == UnitState::Active implies w.current_scenario == Some(
        w.units[i].desc.id@,
    ) by {
        assert(v.units[i].state == UnitState::Active);
    }
    assert forall|i: int|
        0 <= i < w.units.len() implies (#[trigger] w.units[i]).desc.id@.kind == payload_kind(
        w.units[i].desc.payload,
    ) by {
        assert(w.units[i].desc == v.units[i].desc);
    }
}

fn push_msg(dst: &mut Vec<ManagerStatusMessage>, m: ManagerStatusMessage)
    ensures
        msgs_view(final(dst)@) == msgs_view(old(dst)@).push(m@),
{
    dst.push(m);
    proof {
        assert(msgs_view(dst@) =~= msgs_view(old(dst)@).push(m@));
    }
}

fn append_msgs(dst: &mut Vec<ManagerStatusMessage>, src: Vec<ManagerStatusMessage>)
    ensures
        msgs_view(final(dst)@) == msgs_view(old(dst)@) + msgs_view(src@),
{
    let mut src = src;
    let ghost s0 = src@;
    dst.append(&mut src);
    proof {
        assert(msgs_view(dst@) =~= msgs_view(old(dst)@) + msgs_view(s0));
    }
}

fn clone_names(ns: &Vec<UnitName>) -> (r: Vec<UnitName>)
    ensures
        r@ == ns@,
{
    let mut r: Vec<UnitName> = Vec::new();
    let mut i: usize = 0;
    while i < ns.len()
        invariant
            i <= ns@.len(),
            r@ == ns@.take(i as int),
        decreases ns@.len() - i,
    {
        r.push(ns[i].clone());
        proof {
            assert(r@ =~= ns@.take(i + 1));
        }
        i = i + 1;
    }
    proof {
        assert(ns@.take(ns@.len() as int) =~= ns@);
    }
    r
}

/// The two `Describe` messages for a unit.
fn describe_msgs(u: &Unit) -> (r: Vec<ManagerStatusMessage>)
    ensures
        msgs_view(r@) == describe(*u),
{
    let mut r: Vec<ManagerStatusMessage> = Vec::new();
    push_msg(
        &mut r,
        ManagerStatusMessage::Describe(
            u.desc.id.kind,
            FieldType::Name,
            u.desc.id.id.clone(),
            u.desc.name.clone(),
        ),
    );
    push_msg(
        &mut r,
        ManagerStatusMessage::Describe(
            u.desc.id.kind,
            FieldType::Description,
            u.desc.id.id.clone(),
            u.desc.description.clone(),
        ),
    );
    proof {
        assert(msgs_view(r@) =~= describe(*u));
    }
    r
}

/// The manager: it owns every loaded unit and queues what it announces.
pub struct UnitManager {
    units: Vec<Unit>,
    current_jig: Option<UnitName>,
    current_scenario: Option<UnitName>,
    events: Vec<UnitEvent>,
    outgoing: Vec<Delivery>,
    starts: Vec<UnitName>,
    now: u64,
}

impl View for UnitManager {
    type V = ManagerView;

    closed spec fn view(&self) -> ManagerView {
        ManagerView {
            units: self.units@,
            current_jig: opt_view(self.current_jig),
            current_scenario: opt_view(self.current_scenario),
            events: self.events@.map_values(|e: UnitEvent| e@),
            outgoing: self.outgoing@.map_values(|d: Delivery| d@),
            starts: self.starts@.map_values(|n: UnitName| n@),
            now: self.now,
        }
    }
}

impl UnitManager {
    pub open spec fn wf(&self) -> bool {
        wf(self@)
    }

    /// An empty manager: nothing loaded, nothing current, nothing queued.
    pub fn new() -> (r: UnitManager)
        ensures
            r.wf(),
            r@.units.len() == 0,
            r@.current_jig is None,
            r@.current_scenario is None,
            r@.events.len() == 0,
            r@.outgoing.len() == 0,
            r@.starts.len() == 0,
            r@.now == 0,
    {
        let r = UnitManager {
            units: Vec::new(),
            current_jig: None,
            current_scenario: None,
            events: Vec::new(),
            outgoing: Vec::new(),
            starts: Vec::new(),
            now: 0,
        };
        proof {
            assert(r@.events =~= Seq::empty());
            assert(r@.outgoing =~= Seq::empty());
            assert(r@.starts =~= Seq::empty());
        }
        r
    }

    /// Sets the time that later log lines are stamped with.
    pub fn set_time(&mut self, t: u64)
        ensures
            final(self)@ == (ManagerView { now: t, ..old(self)@ }),
            old(self).wf() ==> final(self).wf(),
    {
        self.now = t;
    }

    /// The position of the unit registered as `n`.
    fn find(&self, n: &UnitName) -> (r: Option<usize>)
        requires
            unique(self.units@),
        ensures
            match r {
                Some(i) => i < self.units@.len() && self.units@[i as int].desc.id@ == n@
                    && index_of(self.units@, n@) == i,
                None => !registered(self.units@, n@),
            },
    {
        let mut i: usize = 0;
        while i < self.units.len()
            invariant
                i <= self.units@.len(),
                unique(self.units@),
                forall|j: int| 0 <= j < i ==> (#[trigger] self.units@[j]).desc.id@ != n@,
            decreases self.units@.len() - i,
        {
            if self.units[i].desc.id.eq(n) {
                proof {
                    lemma_index_of(self.units@, n@, i as int);
                }
                return Some(i);
            }
            i = i + 1;
        }
        None
    }

    /// Appends an event to the outgoing queue.
    fn emit(&mut self, e: UnitEvent)
        ensures
            final(self)@ == (ManagerView { events: old(self)@.events.push(e@), ..old(self)@ }),
    {
        self.events.push(e);
        proof {
            assert(self@.events =~= old(self)@.events.push(e@));
        }
    }

    fn emit_status(&mut self, n: &UnitName, st: UnitStatus)
        ensures
            final(self)@ == (ManagerView {
                events: old(self)@.events.push(status(n@, st@)),
                ..old(self)@
            }),
    {
        self.emit(UnitEvent::Status(UnitStatusEvent { name: n.clone(), status: st }));
    }

    /// Puts the unit at position `i` in state `st`.
    fn put_state(&mut self, i: usize, st: UnitState)
        requires
            i < old(self).units@.len(),
            unique(old(self).units@),
        ensures
            final(self)@ == (ManagerView {
                units: set_state(old(self)@.units, old(self)@.units[i as int].desc.id@, st),
                ..old(self)@
            }),
    {
        let u = self.units.remove(i);
        self.units.insert(i, Unit { desc: u.desc, state: st });
        proof {
            let us = old(self).units@;
            let n = us[i as int].desc.id@;
            lemma_set_state(us, n, st);
            assert forall|j: int| 0 <= j < us.len() implies self.units@[j] == set_state(
                us,
                n,
                st,
            )[j] by {
                if j != i {
                    assert(us[j].desc.id@ != n);
                }
            }
            assert(self.units@ =~= set_state(us, n, st));
        }
    }

    fn deselect_one(&mut self, n: &UnitName, reason: &str)
        requires
            unique(old(self).units@),
        ensures
            final(self)@ == deselect_one(old(self)@, n@, reason@),
    {
        if let Some(i) = self.find(n) {
            self.put_state(i, UnitState::Loaded);
            self.emit_status(n, UnitStatus::Deselected(String::from_str(reason)));
        } else {
            proof {
                assert(set_state(self.units@, n@, UnitState::Loaded) =~= self.units@);
            }
        }
        if let Some(j) = &self.current_jig {
            if j.eq(n) {
                self.current_jig = None;
            }
        }
        if let Some(s) = &self.current_scenario {
            if s.eq(n) {
                self.current_scenario = None;
            }
        }
    }

    /// Returns `n` to `Loaded` and clears it from the current slots. Deselecting the current
    /// jig deselects its default scenario first.
    pub fn deselect(&mut self, n: &UnitName, reason: &str)
        requires
            old(self).wf(),
        ensures
            final(self).wf(),
            final(self)@ == deselect_view(old(self)@, n@, reason@),
    {
        let mut cascade: Option<UnitName> = None;
        if let Some(j) = &self.current_jig {
            if j.eq(n) {
                if let Some(i) = self.find(n) {
                    if let UnitPayload::Jig { default_scenario: Some(s) } = &self.units[i].desc.payload {
                        cascade = Some(s.clone());
                    }
                }
            }
        }
        proof {
            if self@.current_jig == Some(n@) {
                lemma_index_of(self.units@, n@, index_of(self.units@, n@));
            }
            assert(cascade is Some <==> (self@.current_jig == Some(n@) && jig_default(self@, n@) is Some));
            if cascade is Some {
                assert(jig_default(self@, n@) == Some(cascade->Some_0@));
            }
        }
        if let Some(s) = &cascade {
            let why = "jig is deselecting";
            proof {
                reveal_strlit("jig is deselecting");
                assert(why@ == deselected_text());
                lemma_deselect_one_wf(self@, s@, deselected_text());
            }
            self.deselect_one(s, why);
        }
        proof {
            lemma_deselect_one_wf(self@, n@, reason@);
        }
        self.deselect_one(n, reason);
    }

    /// Returns an active unit to `Selected`, leaving the current slots as they are, and
    /// announces the outcome.
    pub fn deactivate(&mut self, n: &UnitName, reason: &str)
        requires
            old(self).wf(),
        ensures
            final(self).wf(),
            final(self)@ == deactivate_view(old(self)@, n@, reason@),
    {
        proof {
            lemma_deactivate_wf(self@, n@, reason@);
        }
        match self.find(n) {
            Some(i) => {
                proof {
                    lemma_index_of(self.units@, n@, i as int);
                }
                if self.units[i].state == UnitState::Active {
                    self.put_state(i, UnitState::Selected);
                }
                assert(self@.units == deactivate_view(old(self)@, n@, reason@).units);
                self.emit_status(n, UnitStatus::DeactivateSuccess(String::from_str(reason)));
                assert(self@.events == deactivate_view(old(self)@, n@, reason@).events);
            },
            None => {
                if n.kind == UnitKind::Internal {
                    self.emit_status(n, UnitStatus::DeactivateSuccess(String::from_str(reason)));
                    return;
                }
                let m = String::from_str("unit not found");
                assert(m@ == not_found_text());
                self.emit_status(n, UnitStatus::DeactivateFailure(m));
            },
        }
    }

    /// Whether every test that payload `p` lists is registered.
    fn deps_at(&self, p: &UnitPayload) -> (r: bool)
        requires
            unique(self.units@),
        ensures
            r == deps_loaded(self.units@, *p),
    {
        match p {
            UnitPayload::Scenario { tests, .. } => {
                let mut k: usize = 0;
                while k < tests.len()
                    invariant
                        unique(self.units@),
                        k <= tests@.len(),
                        test_names(*p) == tests@.map_values(|t: UnitName| t@),
                        forall|j: int| 0 <= j < k ==> registered(self.units@, #[trigger] test_names(*p)[j]),
                    decreases tests@.len() - k,
                {
                    if self.find(&tests[k]).is_none() {
                        assert(test_names(*p)[k as int] == tests@[k as int]@);
                        return false;
                    }
                    k = k + 1;
                }
                true
            },
            _ => true,
        }
    }

    fn fail_activation(&mut self, n: &UnitName, e: UnitActivateError)
        ensures
            final(self)@ == failed(old(self)@, n@, activate_error_text(e)),
    {
        let why = match e {
            UnitActivateError::UnitNotFound => String::from_str("unit not found"),
            UnitActivateError::DependencyMissing => String::from_str("a listed test is not loaded"),
            UnitActivateError::NotActivatable => String::from_str("activated only by its scenario"),
        };
        self.emit_status(n, UnitStatus::ActiveFailed(why));
    }

    fn activate_scenario(&mut self, n: &UnitName) -> (r: Result<(), UnitActivateError>)
        requires
            old(self).wf(),
        ensures
            final(self).wf(),
            final(self)@ == activate_scenario_view(old(self)@, n@),
            r == scenario_activation(old(self)@, n@),
    {
        let i = match self.find(n) {
            Some(i) => i,
            None => {
                self.fail_activation(n, UnitActivateError::UnitNotFound);
                return Err(UnitActivateError::UnitNotFound);
            },
        };
        if n.kind != UnitKind::Scenario {
            self.fail_activation(n, UnitActivateError::UnitNotFound);
            return Err(UnitActivateError::UnitNotFound);
        }
        proof {
            lemma_index_of(self.units@, n@, i as int);
        }
        if !self.deps_at(&self.units[i].desc.payload) {
            self.fail_activation(n, UnitActivateError::DependencyMissing);
            return Err(UnitActivateError::DependencyMissing);
        }
        let ghost v = self@;
        let old_current = match &self.current_scenario {
            Some(c) => if c.eq(n) {
                None
            } else {
                Some(c.clone())
            },
            None => None,
        };
        if let Some(c) = &old_current {
            let why = "switching to a new scenario";
            proof {
                lemma_deactivate_wf(self@, c@, why@);
            }
            self.deactivate(c, why);
        }
        let ghost v1 = self@;
        proof {
            lemma_set_state(v.units, v.current_scenario->Some_0, UnitState::Selected);
            assert(self.units@[i as int].desc.id@ == n@);
            assert forall|j: int|
                0 <= j < v1.units.len() && (#[trigger] v1.units[j]).desc.id@.kind == n@.kind
                    && v1.units[j].state == UnitState::Active implies v1.units[j].desc.id@ == n@ by {
                assert(v.units[j].state == UnitState::Active);
            }
            lemma_index_of(self.units@, n@, i as int);
            lemma_promote(v1, n@, UnitState::Active);
        }
        self.put_state(i, UnitState::Active);
        self.current_scenario = Some(n.clone());
        self.emit_status(n, UnitStatus::Active);
        Ok(())
    }

    fn activate_jig(&mut self, n: &UnitName) -> (r: Result<(), UnitActivateError>)
        requires
            old(self).wf(),
        ensures
            final(self).wf(),
            final(self)@ == activate_jig_view(old(self)@, n@),
            r == jig_activation(old(self)@, n@),
    {
        let i = match self.find(n) {
            Some(i) => i,
            None => {
                self.fail_activation(n, UnitActivateError::UnitNotFound);
                return Err(UnitActivateError::UnitNotFound);
            },
        };
        if n.kind != UnitKind::Jig {
            self.fail_activation(n, UnitActivateError::UnitNotFound);
            return Err(UnitActivateError::UnitNotFound);
        }
        proof {
            lemma_index_of(self.units@, n@, i as int);
        }
        let ghost v = self@;
        let dflt: Option<UnitName> = match &self.units[i].desc.payload {
            UnitPayload::Jig { default_scenario: Some(s) } => Some(s.clone()),
            _ => None,
        };
        assert(opt_view(dflt) == jig_default(v, n@));
        let old_current = match &self.current_jig {
            Some(c) => Some(c.clone()),
            None => None,
        };
        if let Some(c) = &old_current {
            let why = "switching to a different jig";
            self.deactivate(c, why);
        }
        let ghost v1 = self@;
        proof {
            if v.current_jig is Some {
                lemma_set_state(v.units, v.current_jig->Some_0, UnitState::Selected);
            }
            assert forall|j: int|
                0 <= j < v1.units.len() && (#[trigger] v1.units[j]).desc.id@.kind == n@.kind
                    && v1.units[j].state == UnitState::Active implies v1.units[j].desc.id@ == n@ by {
                assert(v.units[j].state == UnitState::Active);
            }
            lemma_index_of(self.units@, n@, i as int);
            lemma_promote(v1, n@, UnitState::Active);
        }
        self.put_state(i, UnitState::Active);
        self.current_jig = Some(n.clone());
        self.emit_status(n, UnitStatus::Active);
        assert(self@ == jig_switched(v, n@));
        match dflt {
            Some(s) => {
                let r = self.activate_scenario(&s);
                if let Err(e) = r {
                    self.fail_activation(n, e);
                }
                r
            },
            None => Ok(()),
        }
    }

    /// Activates `n`: a jig becomes the current jig (and its default scenario is activated),
    /// a scenario becomes the current scenario, an interface goes live. Tests are activated
    /// only by their scenario. The outcome is announced as a status event.
    pub fn activate(&mut self, n: &UnitName) -> (r: Result<(), UnitActivateError>)
        requires
            old(self).wf(),
        ensures
            final(self).wf(),
            final(self)@ == activate_view(old(self)@, n@),
            r == activation(old(self)@, n@),
    {
        match n.kind {
            UnitKind::Jig => self.activate_jig(n),
            UnitKind::Scenario => self.activate_scenario(n),
            UnitKind::Internal => Ok(()),
            _ => {
                let i = match self.find(n) {
                    Some(i) => i,
                    None => {
                        self.fail_activation(n, UnitActivateError::UnitNotFound);
                        return Err(UnitActivateError::UnitNotFound);
                    },
                };
                if n.kind != UnitKind::Interface {
                    self.fail_activation(n, UnitActivateError::NotActivatable);
                    return Err(UnitActivateError::NotActivatable);
                }
                proof {
                    lemma_index_of(self.units@, n@, i as int);
                    lemma_set_other(self@, n@, UnitState::Active);
                }
                self.put_state(i, UnitState::Active);
                self.emit_status(n, UnitStatus::Active);
                Ok(())
            },
        }
    }

    fn fail_selection(&mut self, n: &UnitName, e: UnitSelectError)
        ensures
            final(self)@ == failed(old(self)@, n@, select_error_text(e)),
    {
        let why = match e {
            UnitSelectError::UnitNotFound => String::from_str("unit not found"),
            UnitSelectError::DependencyMissing => String::from_str("a listed test is not loaded"),
        };
        self.emit_status(n, UnitStatus::ActiveFailed(why));
    }

    /// Makes the scenario `n` the current one, deselecting the old; a name that is not a
    /// loaded scenario is not found.
    pub fn select_scenario(&mut self, n: &UnitName) -> (r: Result<(), UnitSelectError>)
        requires
            old(self).wf(),
        ensures
            final(self).wf(),
            n@.kind == UnitKind::Scenario ==> final(self)@ == select_view(old(self)@, n@) && r
                == selection(old(self)@, n@),
            n@.kind != UnitKind::Scenario ==> final(self)@ == failed(old(self)@, n@, not_found_text())
                && r == Err::<(), UnitSelectError>(UnitSelectError::UnitNotFound),
    {
        if n.kind != UnitKind::Scenario {
            self.fail_selection(n, UnitSelectError::UnitNotFound);
            return Err(UnitSelectError::UnitNotFound);
        }
        let i = match self.find(n) {
            Some(i) => i,
            None => {
                self.fail_selection(n, UnitSelectError::UnitNotFound);
                return Err(UnitSelectError::UnitNotFound);
            },
        };
        proof {
            lemma_index_of(self.units@, n@, i as int);
        }
        if let Some(c) = &self.current_scenario {
            if c.eq(n) {
                return Ok(());
            }
        }
        if !self.deps_at(&self.units[i].desc.payload) {
            self.fail_selection(n, UnitSelectError::DependencyMissing);
            return Err(UnitSelectError::DependencyMissing);
        }
        let ghost v = self@;
        let old_current = match &self.current_scenario {
            Some(c) => Some(c.clone()),
            None => None,
        };
        if let Some(c) = &old_current {
            let why = "switching to a new scenario";
            proof {
                lemma_deselect_one_wf(self@, c@, why@);
            }
            self.deselect_one(c, why);
        }
        let ghost v1 = self@;
        proof {
            if v.current_scenario is Some {
                lemma_set_state(v.units, v.current_scenario->Some_0, UnitState::Loaded);
            }
            assert forall|j: int|
                0 <= j < v1.units.len() && (#[trigger] v1.units[j]).desc.id@.kind == n@.kind
                    && v1.units[j].state == UnitState::Active implies v1.units[j].desc.id@ == n@ by {
                assert(v.units[j].state == UnitState::Active);
            }
            lemma_index_of(self.units@, n@, i as int);
            lemma_promote(v1, n@, UnitState::Selected);
        }
        self.put_state(i, UnitState::Selected);
        self.current_scenario = Some(n.clone());
        self.emit_status(n, UnitStatus::Active);
        Ok(())
    }

    /// Selects `n` as a candidate for activation, keeping one current jig and one current
    /// scenario. Selecting what is already selected changes nothing and announces nothing.
    pub fn select(&mut self, n: &UnitName) -> (r: Result<(), UnitSelectError>)
        requires
            old(self).wf(),
        ensures
            final(self).wf(),
            final(self)@ == select_view(old(self)@, n@),
            r == selection(old(self)@, n@),
    {
        match n.kind {
            UnitKind::Internal => Ok(()),
            UnitKind::Scenario => self.select_scenario(n),
            UnitKind::Jig => {
                if let Some(c) = &self.current_jig {
                    if c.eq(n) {
                        return Ok(());
                    }
                }
                match self.activate_jig(n) {
                    Ok(_) => Ok(()),
                    Err(UnitActivateError::DependencyMissing) => Err(UnitSelectError::DependencyMissing),
                    Err(_) => Err(UnitSelectError::UnitNotFound),
                }
            },
            _ => {
                let i = match self.find(n) {
                    Some(i) => i,
                    None => {
                        self.fail_selection(n, UnitSelectError::UnitNotFound);
                        return Err(UnitSelectError::UnitNotFound);
                    },
                };
                proof {
                    lemma_index_of(self.units@, n@, i as int);
                    lemma_set_other(self@, n@, UnitState::Selected);
                }
                if self.units[i].state == UnitState::Loaded {
                    self.put_state(i, UnitState::Selected);
                    self.emit_status(n, UnitStatus::Active);
                }
                Ok(())
            },
        }
    }

    /// Drops the unit named `n` from the registry.
    fn remove_named(&mut self, n: &UnitName)
        requires
            old(self).wf(),
            old(self)@.current_jig != Some(n@),
            old(self)@.current_scenario != Some(n@),
        ensures
            final(self).wf(),
            final(self)@ == (ManagerView { units: without(old(self)@.units, n@), ..old(self)@ }),
    {
        proof {
            lemma_without_wf(self@, n@);
        }
        if let Some(i) = self.find(n) {
            self.units.remove(i);
        }
    }

    /// Deselects `n` and drops it from the registry. Does nothing to the registry where `n`
    /// is not loaded.
    pub fn unload(&mut self, n: &UnitName)
        requires
            old(self).wf(),
        ensures
            final(self).wf(),
            final(self)@ == unload_view(old(self)@, n@),
            !registered(final(self)@.units, n@),
    {
        self.deselect(n, "unloading");
        self.remove_named(n);
        proof {
            lemma_without(old(self)@.units, n@);
            lemma_without(deselect_view(old(self)@, n@, unloading_text()).units, n@);
        }
    }

    /// Loads `desc` as a unit of kind `k`, replacing a unit of the same name.
    fn load_unit(&mut self, desc: UnitDescription, k: UnitKind) -> (r: Result<UnitName, LoadError>)
        requires
            old(self).wf(),
        ensures
            final(self).wf(),
            final(self)@ == load_view(old(self)@, desc, k),
            match r {
                Ok(n) => loading(old(self)@, desc, k) is Ok && n == desc.id,
                Err(e) => loading(old(self)@, desc, k) == Err::<(), LoadError>(e),
            },
    {
        if desc.id.kind != k || desc.kind_of_payload() != k {
            self.emit_status(
                &desc.id,
                UnitStatus::UnitIncompatible(String::from_str("description does not match the unit kind")),
            );
            return Err(LoadError::WrongKind);
        }
        if self.find(&desc.id).is_some() {
            self.deactivate(&desc.id, "reloading");
            self.deselect(&desc.id, "reloading");
            self.remove_named(&desc.id);
        }
        if !self.deps_at(&desc.payload) {
            self.emit_status(
                &desc.id,
                UnitStatus::UnitIncompatible(String::from_str("a listed test is not loaded")),
            );
            return Err(LoadError::DependencyMissing);
        }
        let id = desc.id.clone();
        let ghost w = self@;
        proof {
            lemma_without(old(self)@.units, desc.id@);
        }
        self.units.push(Unit { desc: desc, state: UnitState::Loaded });
        proof {
            let us = self.units@;
            assert forall|i: int, j: int|
                0 <= i < us.len() && 0 <= j < us.len() && (#[trigger] us[i]).desc.id@ == (
                #[trigger] us[j]).desc.id@ implies i == j by {
                if i < w.units.len() && j == w.units.len() {
                    assert(registered(w.units, us[i].desc.id@));
                }
                if j < w.units.len() && i == w.units.len() {
                    assert(registered(w.units, us[j].desc.id@));
                }
            }
            assert forall|m: UnitNameView| registered(w.units, m) implies #[trigger] state_of(us, m) == state_of(w.units, m) by {
                let j = choose|j: int| 0 <= j < w.units.len() && (#[trigger] w.units[j]).desc.id@ == m;
                lemma_index_of(w.units, m, j);
                lemma_index_of(us, m, j);
            }
        }
        self.emit_status(&id, UnitStatus::Loaded);
        Ok(id)
    }

    /// Loads a jig description. A unit already loaded under the same name is deactivated,
    /// deselected and replaced; the new unit enters as `Loaded` and is announced.
    pub fn load_jig(&mut self, desc: UnitDescription) -> (r: Result<UnitName, LoadError>)
        requires
            old(self).wf(),
        ensures
            final(self).wf(),
            final(self)@ == load_view(old(self)@, desc, UnitKind::Jig),
            match r {
                Ok(n) => loading(old(self)@, desc, UnitKind::Jig) is Ok && n == desc.id,
                Err(e) => loading(old(self)@, desc, UnitKind::Jig) == Err::<(), LoadError>(e),
            },
    {
        self.load_unit(desc, UnitKind::Jig)
    }

    /// Loads a scenario description; every test it lists must already be loaded.
    pub fn load_scenario(&mut self, desc: UnitDescription) -> (r: Result<UnitName, LoadError>)
        requires
            old(self).wf(),
        ensures
            final(self).wf(),
            final(self)@ == load_view(old(self)@, desc, UnitKind::Scenario),
            match r {
                Ok(n) => loading(old(self)@, desc, UnitKind::Scenario) is Ok && n == desc.id,
                Err(e) => loading(old(self)@, desc, UnitKind::Scenario) == Err::<(), LoadError>(e),
            },
    {
        self.load_unit(desc, UnitKind::Scenario)
    }

    /// Loads a test description.
    pub fn load_test(&mut self, desc: UnitDescription) -> (r: Result<UnitName, LoadError>)
        requires
            old(self).wf(),
        ensures
            final(self).wf(),
            final(self)@ == load_view(old(self)@, desc, UnitKind::Test),
            match r {
                Ok(n) => loading(old(self)@, desc, UnitKind::Test) is Ok && n == desc.id,
                Err(e) => loading(old(self)@, desc, UnitKind::Test) == Err::<(), LoadError>(e),
            },
    {
        self.load_unit(desc, UnitKind::Test)
    }

    /// Loads an interface description.
    pub fn load_interface(&mut self, desc: UnitDescription) -> (r: Result<UnitName, LoadError>)
        requires
            old(self).wf(),
        ensures
            final(self).wf(),
            final(self)@ == load_view(old(self)@, desc, UnitKind::Interface),
            match r {
                Ok(n) => loading(old(self)@, desc, UnitKind::Interface) is Ok && n == desc.id,
                Err(e) => loading(old(self)@, desc, UnitKind::Interface) == Err::<(), LoadError>(e),
            },
    {
        self.load_unit(desc, UnitKind::Interface)
    }

    /// The names of the loaded units of kind `k`, in registry order.
    fn names_of(&self, k: UnitKind) -> (r: Vec<UnitName>)
        ensures
            names_view(r@) == names_of_kind(self.units@, k),
    {
        let mut r: Vec<UnitName> = Vec::new();
        let mut i: usize = 0;
        while i < self.units.len()
            invariant
                i <= self.units@.len(),
                names_view(r@) == names_of_kind(self.units@.take(i as int), k),
            decreases self.units@.len() - i,
        {
            proof {
                assert(self.units@.take(i + 1).drop_last() =~= self.units@.take(i as int));
            }
            if self.units[i].desc.id.kind == k {
                let ghost r0 = r@;
                r.push(self.units[i].desc.id.clone());
                proof {
                    assert(names_view(r@) =~= names_view(r0).push(self.units@[i as int].desc.id@));
                }
            }
            i = i + 1;
        }
        proof {
            assert(self.units@.take(self.units@.len() as int) =~= self.units@);
        }
        r
    }

    /// The loaded tests, in registry order.
    pub fn get_tests(&self) -> (r: Vec<UnitName>)
        ensures
            names_view(r@) == names_of_kind(self@.units, UnitKind::Test),
    {
        self.names_of(UnitKind::Test)
    }

    /// The loaded scenarios, in registry order.
    pub fn get_scenarios(&self) -> (r: Vec<UnitName>)
        ensures
            names_view(r@) == names_of_kind(self@.units, UnitKind::Scenario),
    {
        self.names_of(UnitKind::Scenario)
    }

    fn get_named(&self, n: &UnitName, k: UnitKind) -> (r: Option<&Unit>)
        requires
            self.wf(),
        ensures
            match r {
                Some(u) => n@.kind == k && registered(self@.units, n@) && *u == unit_of(
                    self@.units,
                    n@,
                ),
                None => !(n@.kind == k && registered(self@.units, n@)),
            },
    {
        if n.kind != k {
            return None;
        }
        match self.find(n) {
            Some(i) => Some(&self.units[i]),
            None => None,
        }
    }

    /// The loaded scenario named `n`, if any.
    pub fn get_scenario_named(&self, n: &UnitName) -> (r: Option<&Unit>)
        requires
            self.wf(),
        ensures
            match r {
                Some(u) => n@.kind == UnitKind::Scenario && registered(self@.units, n@) && *u
                    == unit_of(self@.units, n@),
                None => !(n@.kind == UnitKind::Scenario && registered(self@.units, n@)),
            },
    {
        self.get_named(n, UnitKind::Scenario)
    }

    /// The loaded test named `n`, if any.
    pub fn get_test_named(&self, n: &UnitName) -> (r: Option<&Unit>)
        requires
            self.wf(),
        ensures
            match r {
                Some(u) => n@.kind == UnitKind::Test && registered(self@.units, n@) && *u
                    == unit_of(self@.units, n@),
                None => !(n@.kind == UnitKind::Test && registered(self@.units, n@)),
            },
    {
        self.get_named(n, UnitKind::Test)
    }

    /// Whether a jig named `n` is loaded.
    pub fn jig_is_loaded(&self, n: &UnitName) -> (r: bool)
        requires
            self.wf(),
        ensures
            r == (n@.kind == UnitKind::Jig && registered(self@.units, n@)),
    {
        self.get_named(n, UnitKind::Jig).is_some()
    }

    /// The current jig, if any.
    pub fn current_jig(&self) -> (r: Option<&UnitName>)
        ensures
            match r {
                Some(n) => self@.current_jig == Some(n@),
                None => self@.current_jig is None,
            },
    {
        self.current_jig.as_ref()
    }

    /// The current scenario, if any.
    pub fn current_scenario(&self) -> (r: Option<&UnitName>)
        ensures
            match r {
                Some(n) => self@.current_scenario == Some(n@),
                None => self@.current_scenario is None,
            },
    {
        self.current_scenario.as_ref()
    }

    /// The lifecycle state of the unit named `n`, if it is loaded.
    pub fn state_of(&self, n: &UnitName) -> (r: Option<UnitState>)
        requires
            self.wf(),
        ensures
            r == state_of(self@.units, n@),
    {
        match self.find(n) {
            Some(i) => {
                proof {
                    lemma_index_of(self.units@, n@, i as int);
                }
                Some(self.units[i].state)
            },
            None => None,
        }
    }

    /// Queues `ms` for `to`, unconditionally.
    fn push_all(&mut self, to: &UnitName, ms: Vec<ManagerStatusMessage>)
        ensures
            final(self)@ == (ManagerView {
                outgoing: old(self)@.outgoing + addressed(to@, msgs_view(ms@)),
                ..old(self)@
            }),
    {
        let mut ms = ms;
        let ghost orig = ms@;
        while ms.len() > 0
            invariant
                ms@ == orig.subrange(orig.len() - ms@.len(), orig.len() as int),
                ms@.len() <= orig.len(),
                self@ == (ManagerView {
                    outgoing: old(self)@.outgoing + addressed(
                        to@,
                        msgs_view(orig.subrange(0, orig.len() - ms@.len())),
                    ),
                    ..old(self)@
                }),
            decreases ms@.len(),
        {
            let ghost c = orig.len() - ms@.len();
            let ghost o0 = self.outgoing@;
            let ghost prev = self@.outgoing;
            let m = ms.remove(0);
            assert(m == orig[c]);
            let d = Delivery { to: to.clone(), message: m };
            self.outgoing.push(d);
            proof {
                assert(ms@ =~= orig.subrange(c + 1, orig.len() as int));
                assert(self.outgoing@ =~= o0.push(d));
                assert(self@.outgoing =~= prev.push(d@));
                assert(addressed(to@, msgs_view(orig.subrange(0, c + 1))) =~= addressed(
                    to@,
                    msgs_view(orig.subrange(0, c)),
                ).push(d@));
                assert(msgs_view(orig.subrange(0, c + 1)) =~= msgs_view(orig.subrange(0, c)).push(
                    m@,
                ));
                assert(self@.outgoing =~= old(self)@.outgoing + addressed(
                    to@,
                    msgs_view(orig.subrange(0, c + 1)),
                ));
            }
        }
        proof {
            assert(orig.subrange(0, orig.len() as int) =~= orig);
        }
    }

    /// Queues `messages` for `to`, where `to` is an active interface; otherwise does nothing.
    pub fn send_messages_to(&mut self, to: &UnitName, messages: Vec<ManagerStatusMessage>)
        requires
            old(self).wf(),
        ensures
            final(self).wf(),
            final(self)@ == sent(old(self)@, to@, msgs_view(messages@)),
    {
        if to.kind != UnitKind::Interface {
            return;
        }
        match self.find(to) {
            Some(i) => {
                proof {
                    lemma_index_of(self.units@, to@, i as int);
                }
                if self.units[i].state != UnitState::Active {
                    return;
                }
            },
            None => {
                return;
            },
        }
        self.push_all(to, messages);
    }

    /// Queues the greeting banner for `to`.
    pub fn send_hello_to(&mut self, to: &UnitName)
        requires
            old(self).wf(),
        ensures
            final(self).wf(),
            final(self)@ == sent(old(self)@, to@, seq![MessageView::Hello(hello_text())]),
    {
        let mut ms: Vec<ManagerStatusMessage> = Vec::new();
        push_msg(&mut ms, ManagerStatusMessage::Hello(String::from_str("Jig/20 1.0")));
        proof {
            assert(msgs_view(ms@) =~= seq![MessageView::Hello(hello_text())]);
        }
        self.send_messages_to(to, ms);
    }

    fn jig_msgs(&self) -> (r: Vec<ManagerStatusMessage>)
        requires
            self.wf(),
        ensures
            msgs_view(r@) == jig_messages(self@),
    {
        let mut r: Vec<ManagerStatusMessage> = Vec::new();
        match &self.current_jig {
            None => {
                push_msg(&mut r, ManagerStatusMessage::Jig(UnitName::no_jig()));
                proof {
                    assert(msgs_view(r@) =~= jig_messages(self@));
                }
            },
            Some(j) => {
                push_msg(&mut r, ManagerStatusMessage::Jig(j.clone()));
                if let Some(i) = self.find(j) {
                    proof {
                        lemma_index_of(self.units@, j@, i as int);
                    }
                    append_msgs(&mut r, describe_msgs(&self.units[i]));
                }
                proof {
                    assert(msgs_view(r@) =~= jig_messages(self@));
                }
            },
        }
        r
    }

    /// Queues the current jig and its description for `to`.
    pub fn send_jig_to(&mut self, to: &UnitName)
        requires
            old(self).wf(),
        ensures
            final(self).wf(),
            final(self)@ == sent(old(self)@, to@, jig_messages(old(self)@)),
    {
        let ms = self.jig_msgs();
        self.send_messages_to(to, ms);
    }

    fn describe_of_kind(&self, k: UnitKind) -> (r: Vec<ManagerStatusMessage>)
        ensures
            msgs_view(r@) == describe_kind(self.units@, k),
    {
        let mut r: Vec<ManagerStatusMessage> = Vec::new();
        let mut i: usize = 0;
        while i < self.units.len()
            invariant
                i <= self.units@.len(),
                msgs_view(r@) == describe_kind(self.units@.take(i as int), k),
            decreases self.units@.len() - i,
        {
            proof {
                assert(self.units@.take(i + 1).drop_last() =~= self.units@.take(i as int));
            }
            if self.units[i].desc.id.kind == k {
                append_msgs(&mut r, describe_msgs(&self.units[i]));
            }
            i = i + 1;
        }
        proof {
            assert(self.units@.take(self.units@.len() as int) =~= self.units@);
        }
        r
    }

    /// Queues the list of loaded scenarios, and each one's name and description, for `to`.
    pub fn send_scenarios_to(&mut self, to: &UnitName)
        requires
            old(self).wf(),
        ensures
            final(self).wf(),
            final(self)@ == sent(old(self)@, to@, scenarios_messages(old(self)@)),
    {
        let mut ms: Vec<ManagerStatusMessage> = Vec::new();
        push_msg(&mut ms, ManagerStatusMessage::Scenarios(self.names_of(UnitKind::Scenario)));
        append_msgs(&mut ms, self.describe_of_kind(UnitKind::Scenario));
        proof {
            assert(msgs_view(ms@) =~= scenarios_messages(self@));
        }
        self.send_messages_to(to, ms);
    }

    fn describe_names(&self, ns: &Vec<UnitName>) -> (r: Vec<ManagerStatusMessage>)
        requires
            unique(self.units@),
        ensures
            msgs_view(r@) == describe_listed(self.units@, names_view(ns@)),
    {
        let mut r: Vec<ManagerStatusMessage> = Vec::new();
        let mut i: usize = 0;
        while i < ns.len()
            invariant
                unique(self.units@),
                i <= ns@.len(),
                msgs_view(r@) == describe_listed(self.units@, names_view(ns@.take(i as int))),
            decreases ns@.len() - i,
        {
            proof {
                assert(names_view(ns@.take(i + 1)).drop_last() =~= names_view(ns@.take(i as int)));
            }
            if let Some(k) = self.find(&ns[i]) {
                proof {
                    lemma_index_of(self.units@, ns@[i as int]@, k as int);
                }
                append_msgs(&mut r, describe_msgs(&self.units[k]));
            }
            i = i + 1;
        }
        proof {
            assert(ns@.take(ns@.len() as int) =~= ns@);
        }
        r
    }

    fn scenario_msgs(&self, sc: &UnitName) -> (r: Vec<ManagerStatusMessage>)
        requires
            self.wf(),
        ensures
            msgs_view(r@) == scenario_messages(self@, sc@),
    {
        let mut r: Vec<ManagerStatusMessage> = Vec::new();
        if sc.kind == UnitKind::Scenario {
            if let Some(i) = self.find(sc) {
                proof {
                    lemma_index_of(self.units@, sc@, i as int);
                }
                if let UnitPayload::Scenario { tests, .. } = &self.units[i].desc.payload {
                    push_msg(&mut r, ManagerStatusMessage::Scenario(Some(sc.clone())));
                    append_msgs(&mut r, self.describe_names(tests));
                    push_msg(&mut r, ManagerStatusMessage::Tests(sc.clone(), clone_names(tests)));
                    proof {
                        assert(msgs_view(r@) =~= scenario_messages(self@, sc@));
                    }
                    return r;
                }
            }
        }
        push_msg(&mut r, ManagerStatusMessage::Scenario(None));
        proof {
            assert(msgs_view(r@) =~= scenario_messages(self@, sc@));
        }
        r
    }

    fn projection_msgs(&self, sc: &UnitName) -> (r: Vec<ManagerStatusMessage>)
        requires
            self.wf(),
            sc@.kind == UnitKind::Scenario,
            registered(self@.units, sc@),
        ensures
            msgs_view(r@) == projection_messages(self@, sc@),
    {
        let mut r: Vec<ManagerStatusMessage> = Vec::new();
        let i = match self.find(sc) {
            Some(i) => i,
            None => {
                return r;
            },
        };
        proof {
            lemma_index_of(self.units@, sc@, i as int);
        }
        push_msg(&mut r, ManagerStatusMessage::Scenario(Some(sc.clone())));
        append_msgs(&mut r, describe_msgs(&self.units[i]));
        match &self.units[i].desc.payload {
            UnitPayload::Scenario { tests, .. } => {
                append_msgs(&mut r, self.describe_names(tests));
                push_msg(&mut r, ManagerStatusMessage::Tests(sc.clone(), clone_names(tests)));
            },
            _ => {
                let empty: Vec<UnitName> = Vec::new();
                proof {
                    assert(names_view(empty@) =~= Seq::empty());
                    assert(describe_listed(self.units@, Seq::empty()) =~= Seq::empty());
                }
                push_msg(&mut r, ManagerStatusMessage::Tests(sc.clone(), empty));
            },
        }
        proof {
            assert(msgs_view(r@) =~= projection_messages(self@, sc@));
        }
        r
    }

    /// Queues the scenario `sc`, its tests' names and descriptions, and its test sequence
    /// for `to`.
    pub fn send_scenario_to(&mut self, to: &UnitName, sc: &UnitName)
        requires
            old(self).wf(),
        ensures
            final(self).wf(),
            final(self)@ == sent(old(self)@, to@, scenario_messages(old(self)@, sc@)),
    {
        let ms = self.scenario_msgs(sc);
        self.send_messages_to(to, ms);
    }

    /// Queues, for every active interface, the details of the jig `n` (where `jig`) or of
    /// the scenario `n`.
    fn announce(&mut self, n: &UnitName, jig: bool)
        requires
            old(self).wf(),
            jig ==> n@.kind == UnitKind::Jig && registered(old(self)@.units, n@),
            !jig ==> n@.kind == UnitKind::Scenario && registered(old(self)@.units, n@),
        ensures
            final(self).wf(),
            jig ==> final(self)@ == announce_jig(old(self)@, n@),
            !jig ==> final(self)@ == announce_scenario(old(self)@, n@),
    {
        let ghost v = self@;
        let ghost ms = if jig {
            seq![MessageView::Jig(n@)] + describe(unit_of(v.units, n@))
        } else {
            projection_messages(v, n@)
        };
        let mut i: usize = 0;
        while i < self.units.len()
            invariant
                self.wf(),
                self.units@ == v.units,
                i <= self.units@.len(),
                jig ==> n@.kind == UnitKind::Jig && registered(v.units, n@),
                !jig ==> n@.kind == UnitKind::Scenario && registered(v.units, n@),
                ms == if jig {
                    seq![MessageView::Jig(n@)] + describe(unit_of(v.units, n@))
                } else {
                    projection_messages(v, n@)
                },
                self@ == (ManagerView {
                    outgoing: v.outgoing + to_each(
                        active_interfaces(v.units.take(i as int)),
                        ms,
                    ),
                    ..v
                }),
            decreases self.units@.len() - i,
        {
            proof {
                assert(self.units@.take(i + 1).drop_last() =~= self.units@.take(i as int));
            }
            if self.units[i].desc.id.kind == UnitKind::Interface && self.units[i].state
                == UnitState::Active {
                let msgs = if jig {
                    let mut r: Vec<ManagerStatusMessage> = Vec::new();
                    push_msg(&mut r, ManagerStatusMessage::Jig(n.clone()));
                    if let Some(k) = self.find(n) {
                        proof {
                            lemma_index_of(self.units@, n@, k as int);
                        }
                        append_msgs(&mut r, describe_msgs(&self.units[k]));
                    }
                    r
                } else {
                    self.projection_msgs(n)
                };
                proof {
                    if jig {
                        assert(msgs_view(msgs@) =~= ms);
                    }
                }
                let to = self.units[i].desc.id.clone();
                self.push_all(&to, msgs);
                proof {
                    let names = active_interfaces(v.units.take(i + 1));
                    assert(names.drop_last() == active_interfaces(v.units.take(i as int)));
                    assert(self@.outgoing =~= v.outgoing + to_each(names, ms));
                }
            }
            i = i + 1;
        }
        proof {
            assert(self.units@.take(self.units@.len() as int) =~= self.units@);
        }
    }

    /// Where `n` is a loaded jig, queues it and its description for every active interface.
    pub fn broadcast_jig_named(&mut self, n: &UnitName)
        requires
            old(self).wf(),
        ensures
            final(self).wf(),
            final(self)@ == announce_jig(old(self)@, n@),
    {
        if n.kind == UnitKind::Jig && self.find(n).is_some() {
            self.announce(n, true);
        }
    }

    /// Where `n` is a loaded scenario, queues its details for every active interface.
    pub fn broadcast_scenario_named(&mut self, n: &UnitName)
        requires
            old(self).wf(),
        ensures
            final(self).wf(),
            final(self)@ == announce_scenario(old(self)@, n@),
    {
        if n.kind == UnitKind::Scenario && self.find(n).is_some() {
            self.announce(n, false);
        }
    }

    fn log(&mut self, from: &UnitName, level: LogLevel, text: String)
        ensures
            final(self)@ == logged(old(self)@, from@, level, text@),
    {
        self.emit(
            UnitEvent::Log(
                LogEntry { source: from.clone(), level: level, text: text, timestamp: self.now },
            ),
        );
    }

    /// Queues the test sequence of the named scenario, or of the current one, for `to`; logs
    /// an error where there is no such scenario.
    pub fn send_tests_to(&mut self, to: &UnitName, scenario: &Option<UnitName>)
        requires
            old(self).wf(),
        ensures
            final(self).wf(),
            final(self)@ == tests_view(old(self)@, to@, opt_view(*scenario)),
    {
        let sc = match scenario {
            Some(n) => n.clone(),
            None => match &self.current_scenario {
                Some(c) => c.clone(),
                None => {
                    self.log(
                        to,
                        LogLevel::Error,
                        String::from_str(
                            "unable to list tests, no scenario specified and no scenario selected",
                        ),
                    );
                    return;
                },
            },
        };
        if sc.kind == UnitKind::Scenario {
            if let Some(i) = self.find(&sc) {
                proof {
                    lemma_index_of(self.units@, sc@, i as int);
                }
                if let UnitPayload::Scenario { tests, .. } = &self.units[i].desc.payload {
                    let mut ms: Vec<ManagerStatusMessage> = Vec::new();
                    push_msg(&mut ms, ManagerStatusMessage::Tests(sc.clone(), clone_names(tests)));
                    proof {
                        assert(msgs_view(ms@) =~= seq![
                            MessageView::Tests(sc@, test_names(unit_of(self@.units, sc@).desc.payload)),
                        ]);
                    }
                    self.send_messages_to(to, ms);
                    return;
                }
            }
        }
        let mut t = String::from_str("unable to list tests, scenario ");
        t.append(sc.to_string().as_str());
        t.append(" not found");
        self.log(to, LogLevel::Error, t);
    }

    /// Sends `to` the greeting, the jig, the scenarios and the current scenario, in order.
    fn greet(&mut self, to: &UnitName)
        requires
            old(self).wf(),
        ensures
            final(self).wf(),
            final(self)@ == greeting_view(old(self)@, to@),
    {
        self.send_hello_to(to);
        self.send_jig_to(to);
        self.send_scenarios_to(to);
        let cur = match &self.current_scenario {
            Some(c) => Some(c.clone()),
            None => None,
        };
        if let Some(c) = &cur {
            self.send_scenario_to(to, c);
        }
    }

    fn start_known(&mut self, n: &UnitName)
        requires
            old(self).wf(),
        ensures
            final(self).wf(),
            final(self)@ == start_known(old(self)@, n@),
    {
        if self.activate_scenario(n).is_ok() {
            let ghost s0 = self.starts@;
            self.starts.push(n.clone());
            proof {
                assert(self@.starts =~= names_view(s0).push(n@));
            }
        }
    }

    fn start(&mut self, from: &UnitName, scenario: &Option<UnitName>)
        requires
            old(self).wf(),
        ensures
            final(self).wf(),
            final(self)@ == start_view(old(self)@, from@, opt_view(*scenario)),
    {
        match scenario {
            Some(n) => {
                if n.kind == UnitKind::Scenario && self.find(n).is_some() {
                    self.start_known(n);
                } else {
                    let mut t = String::from_str("unable to find scenario ");
                    t.append(n.to_string().as_str());
                    t.append(" to start it");
                    self.log(from, LogLevel::Error, t);
                }
            },
            None => {
                let cur = match &self.current_scenario {
                    Some(c) => Some(c.clone()),
                    None => None,
                };
                match cur {
                    Some(c) => self.start_known(&c),
                    None => self.log(
                        from,
                        LogLevel::Error,
                        String::from_str("no scenario selected to start"),
                    ),
                }
            },
        }
    }

    /// Handles one control message from an interface or a running unit.
    pub fn manager_request(&mut self, msg: &ManagerControlMessage)
        requires
            old(self).wf(),
        ensures
            final(self).wf(),
            final(self)@ == request_view(old(self)@, msg.sender@, msg.contents),
    {
        let from = &msg.sender;
        match &msg.contents {
            ManagerControlMessageContents::Jig => self.send_jig_to(from),
            ManagerControlMessageContents::Scenarios => self.send_scenarios_to(from),
            ManagerControlMessageContents::Scenario(n) => {
                if n.kind == UnitKind::Scenario && self.find(n).is_some() {
                    let _ = self.activate(n);
                } else {
                    let mut t = String::from_str("unable to find scenario ");
                    t.append(n.to_string().as_str());
                    self.log(from, LogLevel::Error, t);
                }
            },
            ManagerControlMessageContents::Tests(opt) => self.send_tests_to(from, opt),
            ManagerControlMessageContents::Error(t) => self.log(from, LogLevel::Error, t.clone()),
            ManagerControlMessageContents::InitialGreeting => self.greet(from),
            ManagerControlMessageContents::ChildExited => {
                self.emit_status(
                    from,
                    UnitStatus::ActiveFailed(String::from_str("Unit unexpectedly exited")),
                );
            },
            ManagerControlMessageContents::Unimplemented(verb, rest) => {
                let mut t = String::from_str("unimplemented verb: ");
                t.append(verb.as_str());
                t.append(" (args: ");
                t.append(rest.as_str());
                t.append(")");
                self.log(from, LogLevel::Error, t);
            },
            ManagerControlMessageContents::Log(t) => self.log(from, LogLevel::Info, t.clone()),
            ManagerControlMessageContents::LogError(t) => self.log(from, LogLevel::Error, t.clone()),
            ManagerControlMessageContents::Start(opt) => self.start(from, opt),
            ManagerControlMessageContents::ScenarioFinished(_, _) => {
                if from.kind == UnitKind::Scenario {
                    self.deactivate(from, "scenario finished");
                }
            },
        }
    }

    /// Queues a log line for every active interface.
    fn fan_out_log(&mut self, entry: &LogEntry)
        requires
            old(self).wf(),
        ensures
            final(self).wf(),
            final(self)@ == announced(
                old(self)@,
                seq![MessageView::Log(entry.source@, entry.level, entry.text@)],
            ),
    {
        let ghost v = self@;
        let ghost ms = seq![MessageView::Log(entry.source@, entry.level, entry.text@)];
        let mut i: usize = 0;
        while i < self.units.len()
            invariant
                self.wf(),
                self.units@ == v.units,
                i <= self.units@.len(),
                ms == seq![MessageView::Log(entry.source@, entry.level, entry.text@)],
                self@ == (ManagerView {
                    outgoing: v.outgoing + to_each(
                        active_interfaces(v.units.take(i as int)),
                        ms,
                    ),
                    ..v
                }),
            decreases self.units@.len() - i,
        {
            proof {
                assert(self.units@.take(i + 1).drop_last() =~= self.units@.take(i as int));
            }
            if self.units[i].desc.id.kind == UnitKind::Interface && self.units[i].state
                == UnitState::Active {
                let mut msgs: Vec<ManagerStatusMessage> = Vec::new();
                push_msg(&mut msgs, ManagerStatusMessage::Log(entry.clone()));
                proof {
                    assert(msgs_view(msgs@) =~= ms);
                }
                let to = self.units[i].desc.id.clone();
                self.push_all(&to, msgs);
                proof {
                    let names = active_interfaces(v.units.take(i + 1));
                    assert(names.drop_last() == active_interfaces(v.units.take(i as int)));
                    assert(self@.outgoing =~= v.outgoing + to_each(names, ms));
                }
            }
            i = i + 1;
        }
        proof {
            assert(self.units@.take(self.units@.len() as int) =~= self.units@);
        }
    }

    fn shutdown(&mut self)
        requires
            old(self).wf(),
        ensures
            final(self).wf(),
            final(self)@ == shutdown_view(old(self)@),
    {
        let sc = match &self.current_scenario {
            Some(c) => Some(c.clone()),
            None => None,
        };
        if let Some(c) = &sc {
            self.deactivate(c, "shutting down");
        }
        let jg = match &self.current_jig {
            Some(c) => Some(c.clone()),
            None => None,
        };
        if let Some(c) = &jg {
            self.deactivate(c, "shutting down");
        }
        let ghost v2 = self@;
        let ghost us = self.units@;
        let mut i: usize = 0;
        while i < self.units.len()
            invariant
                self.wf(),
                i <= us.len(),
                self.units@.len() == us.len(),
                forall|j: int| 0 <= j < us.len() ==> (#[trigger] self.units@[j]).desc == us[j].desc,
                forall|j: int| i <= j < us.len() ==> (#[trigger] self.units@[j]).state == us[j].state,
                self@ == close_interfaces(v2, us.take(i as int)),
            decreases us.len() - i,
        {
            proof {
                assert(us.take(i + 1).drop_last() =~= us.take(i as int));
            }
            if self.units[i].desc.id.kind == UnitKind::Interface && self.units[i].state
                == UnitState::Active {
                let id = self.units[i].desc.id.clone();
                let ghost before = self.units@;
                proof {
                    lemma_index_of(before, id@, i as int);
                }
                self.deactivate(&id, "shutting down");
                proof {
                    lemma_set_state(before, id@, UnitState::Selected);
                    assert forall|j: int| i < j < us.len() implies (#[trigger] self.units@[j]).state
                        == us[j].state by {
                        assert(before[j].desc.id@ != id@);
                    }
                }
            }
            i = i + 1;
        }
        proof {
            assert(us.take(us.len() as int) =~= us);
        }
    }

    /// Handles one event from the bus: control messages, activations to project to the
    /// interfaces, log lines to forward to them, and shutdown.
    pub fn process_message(&mut self, e: &UnitEvent)
        requires
            old(self).wf(),
        ensures
            final(self).wf(),
            final(self)@ == process_view(old(self)@, *e),
    {
        match e {
            UnitEvent::ManagerRequest(m) => self.manager_request(m),
            UnitEvent::Status(st) => {
                if let UnitStatus::Active = &st.status {
                    if st.name.kind == UnitKind::Jig {
                        self.broadcast_jig_named(&st.name);
                    } else if st.name.kind == UnitKind::Scenario {
                        self.broadcast_scenario_named(&st.name);
                    }
                }
            },
            UnitEvent::Log(l) => self.fan_out_log(l),
            UnitEvent::Shutdown => self.shutdown(),
            _ => {},
        }
    }

    /// Deactivates an interface whose output failed, giving the failure as the reason.
    pub fn communication_failed(&mut self, to: &UnitName, error: &str)
        requires
            old(self).wf(),
        ensures
            final(self).wf(),
            final(self)@ == deactivate_view(old(self)@, to@, "communication error: "@ + error@),
    {
        let mut t = String::from_str("communication error: ");
        t.append(error);
        self.deactivate(to, t.as_str());
    }

    /// Hands over the queued events, oldest first, leaving the queue empty.
    pub fn take_events(&mut self) -> (r: Vec<UnitEvent>)
        ensures
            r@.map_values(|e: UnitEvent| e@) == old(self)@.events,
            final(self)@ == (ManagerView { events: Seq::empty(), ..old(self)@ }),
            old(self).wf() ==> final(self).wf(),
    {
        let mut out: Vec<UnitEvent> = Vec::new();
        std::mem::swap(&mut self.events, &mut out);
        proof {
            assert(self@.events =~= Seq::empty());
        }
        out
    }

    /// Hands over the queued interface messages, oldest first, leaving the queue empty.
    pub fn take_deliveries(&mut self) -> (r: Vec<Delivery>)
        ensures
            r@.map_values(|d: Delivery| d@) == old(self)@.outgoing,
            final(self)@ == (ManagerView { outgoing: Seq::empty(), ..old(self)@ }),
            old(self).wf() ==> final(self).wf(),
    {
        let mut out: Vec<Delivery> = Vec::new();
        std::mem::swap(&mut self.outgoing, &mut out);
        proof {
            assert(self@.outgoing =~= Seq::empty());
        }
        out
    }

    /// Hands over the scenarios started since the last call, oldest first.
    pub fn take_starts(&mut self) -> (r: Vec<UnitName>)
        ensures
            names_view(r@) == old(self)@.starts,
            final(self)@ == (ManagerView { starts: Seq::empty(), ..old(self)@ }),
            old(self).wf() ==> final(self).wf(),
    {
        let mut out: Vec<UnitName> = Vec::new();
        std::mem::swap(&mut self.starts, &mut out);
        proof {
            assert(self@.starts =~= Seq::empty());
        }
        out
    }

    /// A snapshot of the scenario `s` for the runner, where `s` is a loaded scenario whose
    /// tests are all loaded.
    pub fn plan_for(&self, s: &UnitName) -> (r: Option<ScenarioPlan>)
        requires
            self.wf(),
        ensures
            r is Some <==> is_loaded_scenario(self@, s@) && tests_present(self@, s@),
            r matches Some(p) ==> plan_of(self@, s@, p),
    {
        if s.kind != UnitKind::Scenario {
            return None;
        }
        let i = match self.find(s) {
            Some(i) => i,
            None => return None,
        };
        proof {
            lemma_index_of(self.units@, s@, i as int);
        }
        if !self.deps_at(&self.units[i].desc.payload) {
            return None;
        }
        if let UnitPayload::Scenario { tests, exec_stop, timeout } = &self.units[i].desc.payload {
            let mut steps: Vec<TestStep> = Vec::new();
            let mut k: usize = 0;
            proof {
                assert forall|j: int| 0 <= j < tests@.len() implies registered(self.units@, #[trigger] tests@[j]@) by {
                    assert(test_names(self.units@[i as int].desc.payload)[j] == tests@[j]@);
                }
            }
            while k < tests.len()
                invariant
                    unique(self.units@),
                    forall|j: int| 0 <= j < tests@.len() ==> registered(self.units@, #[trigger] tests@[j]@),
                    k <= tests@.len(),
                    steps@.len() == k,
                    forall|j: int|
                        0 <= j < k ==> (#[trigger] steps@[j]).name == tests@[j]
                            && steps@[j].command@ == test_command(unit_of(self.units@, tests@[j]@)),
                decreases tests@.len() - k,
            {
                let command = match self.find(&tests[k]) {
                    Some(t) => {
                        proof {
                            lemma_index_of(self.units@, tests@[k as int]@, t as int);
                        }
                        match &self.units[t].desc.payload {
                            UnitPayload::Test { exec_start } => exec_start.clone(),
                            _ => String::new(),
                        }
                    },
                    None => String::new(),
                };
                steps.push(TestStep { name: tests[k].clone(), command: command });
                k = k + 1;
            }
            let stop = match exec_stop {
                Some(c) => Some(c.clone()),
                None => None,
            };
            Some(ScenarioPlan { scenario: s.clone(), steps: steps, exec_stop: stop, timeout: *timeout })
        } else {
            None
        }
    }
}

} // verus!
