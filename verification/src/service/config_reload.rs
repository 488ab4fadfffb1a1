//! Reload of the configuration, which may add and remove backends over SSH.

use crate::fault::{self, Fault};
use crate::service::config::model::{self, NomadBackendConfig, StaticSshBackendConfig};
use crate::service::config::validation;
use crate::service::config::{self, ServiceConfig, StaticSshReloadChanges};
use vstd::prelude::*;

verus! {

/// A reload that was let pass and has not been applied.
#[derive(Debug)]
pub struct BackendReload {
    config: ServiceConfig,
    changes: StaticSshReloadChanges,
    desired_static_ssh: Vec<String>,
}

impl BackendReload {
    pub closed spec fn spec_config(&self) -> ServiceConfig {
        self.config
    }

    pub closed spec fn spec_changes(&self) -> StaticSshReloadChanges {
        self.changes
    }

    pub closed spec fn desired(&self) -> Seq<String> {
        self.desired_static_ssh@
    }

    /// Only new settings that were loaded can be prepared.
    pub fn prepare(current: &ServiceConfig, loaded: Result<ServiceConfig, Fault>) -> (reload: Result<
        Self,
        Fault,
    >)
        requires
            current.well_formed(),
            loaded matches Ok(config) ==> config.well_formed(),
        ensures
            match loaded {
                Err(refusal) => reload == Err::<BackendReload, Fault>(refusal),
                Ok(config) => match reload {
                    Ok(made) => made.is_reload_of(*current, config),
                    Err(refusal) => config::reload_fault(*current, config) == Some(refusal),
                },
            },
            reload is Ok ==> config::reload_fault(*current, loaded->Ok_0) is None,
    {
        match loaded {
            Ok(config) => BackendReload::prepare_config(current, config),
            Err(refusal) => Err(refusal),
        }
    }

    /// The reload carries the new settings, what they change and the backends that they want.
    pub open spec fn is_reload_of(&self, current: ServiceConfig, config: ServiceConfig) -> bool {
        let next = config.static_ssh_backends@;
        &&& self.spec_config() == config
        &&& config::are_changes(current, config, self.spec_changes())
        &&& self.desired().len() == next.len()
        &&& forall|i: int|
            0 <= i < next.len() ==> (#[trigger] self.desired()[i])@ == next[i].target.name@
    }

    /// Prepares a reload that changes nothing but which backends over SSH there are.
    pub fn prepare_config(current: &ServiceConfig, config: ServiceConfig) -> (reload: Result<
        Self,
        Fault,
    >)
        requires
            current.well_formed(),
            config.well_formed(),
        ensures
            match reload {
                Ok(made) => config::reload_fault(*current, config) is None && made.is_reload_of(
                    *current,
                    config,
                ),
                Err(refusal) => config::reload_fault(*current, config) == Some(refusal),
            },
    {
        let changes = current.validate_static_ssh_reload(&config)?;
        let mut desired_static_ssh: Vec<String> = Vec::new();
        let mut i: usize = 0;
        while i < config.static_ssh_backends.len()
            invariant
                i <= config.static_ssh_backends@.len(),
                desired_static_ssh@.len() == i,
                forall|j: int|
                    0 <= j < i ==> (#[trigger] desired_static_ssh@[j])@
                        == config.static_ssh_backends@[j].target.name@,
            decreases config.static_ssh_backends@.len() - i,
        {
            desired_static_ssh.push(config.static_ssh_backends[i].target.name.clone());
            i += 1;
        }
        Ok(BackendReload { config, changes, desired_static_ssh })
    }

    /// The backends that stay schedulable; those that are not among them are disabled first.
    pub fn desired_static_ssh(&self) -> (desired: &Vec<String>)
        ensures
            desired@ == self.desired(),
    {
        &self.desired_static_ssh
    }

    /// The new settings take the place of the current ones, unless the watch over the hosts
    /// could not be replaced.
    pub fn apply(self, current: &mut ServiceConfig, watch_replaced: Result<(), Fault>) -> (applied:
        Result<StaticSshReloadChanges, Fault>)
        ensures
            match watch_replaced {
                Ok(()) => *final(current) == self.spec_config() && applied == Ok::<
                    StaticSshReloadChanges,
                    Fault,
                >(self.spec_changes()),
                Err(refusal) => *final(current) == *old(current) && applied == Err::<
                    StaticSshReloadChanges,
                    Fault,
                >(refusal),
            },
    {
        match watch_replaced {
            Ok(()) => {
                *current = self.config;
                Ok(self.changes)
            },
            Err(refusal) => Err(refusal),
        }
    }
}

/// A backend over SSH that is found by its name in settings and in those that can be reloaded in
/// their place has the same settings in both.
pub proof fn kept_backend_is_the_same(current: ServiceConfig, next: ServiceConfig, i: int, j: int)
    requires
        current.well_formed(),
        next.well_formed(),
        config::reload_fault(current, next) is None,
        0 <= i < current.static_ssh_backends@.len(),
        0 <= j < next.static_ssh_backends@.len(),
        current.static_ssh_backends@[i].target.name@ == next.static_ssh_backends@[j].target.name@,
    ensures
        next.static_ssh_backends@[j].same_as(current.static_ssh_backends@[i]),
{
    let others = next.static_ssh_backends@;
    let name = current.static_ssh_backends@[i].target.name@;
    place_has_the_name(others, name);
    if let Some(place) = config::ssh_place(others, name) {
        names_are_distinct(next, place, j);
    } else {
        assert(others[j].target.name@ != name);
    }
}

/// Once a reload is applied, all settings but the backends over SSH are as before, and a backend
/// that was there and still is has not changed.
pub proof fn reload_changes_only_static_ssh(
    current: ServiceConfig,
    reload: BackendReload,
    config: ServiceConfig,
)
    requires
        config::reload_fault(current, config) is None,
        reload.is_reload_of(current, config),
    ensures
        config::same_fixed_settings(current, reload.spec_config()),
        config::kept_backends_agree(
            current.static_ssh_backends@,
            reload.spec_config().static_ssh_backends@,
        ),
{
}

/// Backends that agree do so both ways.
proof fn nomad_backends_agree_both_ways(left: NomadBackendConfig, right: NomadBackendConfig)
    ensures
        left.same_as(right) ==> right.same_as(left),
{
    model::members_agree_both_ways(left.driver_config@, right.driver_config@);
    if let (Some(before), Some(after)) = (left.prestart, right.prestart) {
        model::members_agree_both_ways(before.driver_config@, after.driver_config@);
    }
}

/// Settings that agree do so both ways.
proof fn settings_agree_both_ways(left: ServiceConfig, right: ServiceConfig)
    requires
        config::same_fixed_settings(left, right),
    ensures
        config::same_fixed_settings(right, left),
{
    let backends = left.nomad_backends@;
    let others = right.nomad_backends@;
    assert forall|i: int| 0 <= i < others.len() implies (#[trigger] others[i]).same_as(
        backends[i],
    ) by {
        assert(backends[i].same_as(others[i]));
        nomad_backends_agree_both_ways(backends[i], others[i]);
    }
    let mappings = left.credential_mappings@;
    let other_mappings = right.credential_mappings@;
    assert forall|i: int| 0 <= i < other_mappings.len() implies (#[trigger] other_mappings[i]).0@
        == mappings[i].0@ && other_mappings[i].1.same_as(mappings[i].1) by {
        assert(mappings[i].0@ == other_mappings[i].0@);
    }
    let limits = left.subject_scheduling_limits@;
    let other_limits = right.subject_scheduling_limits@;
    assert forall|i: int| 0 <= i < other_limits.len() implies (#[trigger] other_limits[i]).0@
        == limits[i].0@ && other_limits[i].1 == limits[i].1 by {
        assert(limits[i].0@ == other_limits[i].0@);
    }
}

/// Where a backend with a name is found, it has that name, and one with a name is found.
proof fn place_has_the_name(backends: Seq<StaticSshBackendConfig>, name: Seq<char>)
    ensures
        match config::ssh_place(backends, name) {
            Some(place) => 0 <= place < backends.len() && backends[place].target.name@ == name,
            None => forall|i: int|
                0 <= i < backends.len() ==> (#[trigger] backends[i]).target.name@ != name,
        },
    decreases backends.len(),
{
    if backends.len() > 0 {
        let before = backends.drop_last();
        place_has_the_name(before, name);
        if config::ssh_place(backends, name) is None {
            assert forall|i: int| 0 <= i < backends.len() implies (
            #[trigger] backends[i]).target.name@ != name by {
                if i < before.len() {
                    assert(before[i].target.name@ != name);
                }
            }
        }
    }
}

/// Backends over SSH have names of their own.
proof fn names_are_distinct(config: ServiceConfig, i: int, j: int)
    requires
        config.well_formed(),
        0 <= i < config.static_ssh_backends@.len(),
        0 <= j < config.static_ssh_backends@.len(),
        config.static_ssh_backends@[i].target.name@ == config.static_ssh_backends@[j].target.name@,
    ensures
        i == j,
{
    let names = validation::backend_names(
        config.local_backend,
        config.static_ssh_backends@,
        config.nomad_backends@,
    );
    let offset: int = if config.local_backend is Some {
        1
    } else {
        0
    };
    assert(names[offset + i] == config.static_ssh_backends@[i].target.name@);
    assert(names[offset + j] == config.static_ssh_backends@[j].target.name@);
}

proof fn kept_backends_agree_both_ways(current: ServiceConfig, next: ServiceConfig)
    requires
        next.well_formed(),
        config::kept_backends_agree(current.static_ssh_backends@, next.static_ssh_backends@),
    ensures
        config::kept_backends_agree(next.static_ssh_backends@, current.static_ssh_backends@),
{
    let backends = current.static_ssh_backends@;
    let others = next.static_ssh_backends@;
    assert forall|j: int| 0 <= j < others.len() implies match config::ssh_place(
        backends,
        (#[trigger] others[j]).target.name@,
    ) {
        Some(place) => backends[place].same_as(others[j]),
        None => true,
    } by {
        let name = others[j].target.name@;
        place_has_the_name(backends, name);
        if let Some(place) = config::ssh_place(backends, name) {
            place_has_the_name(others, name);
            assert(backends[place].target.name@ == name);
            let found = config::ssh_place(others, name)->0;
            names_are_distinct(next, found, j);
            assert(others[j].same_as(backends[place]));
        }
    }
}

/// Settings can be reloaded in place of others exactly where these can be reloaded in place of
/// them, and are refused for the same reason. What one reload adds the other removes.
pub proof fn reloads_go_both_ways(
    current: ServiceConfig,
    next: ServiceConfig,
    there: StaticSshReloadChanges,
    back: StaticSshReloadChanges,
)
    requires
        current.well_formed(),
        next.well_formed(),
        config::are_changes(current, next, there),
        config::are_changes(next, current, back),
    ensures
        config::reload_fault(current, next) == config::reload_fault(next, current),
        there.added == back.removed,
        there.removed == back.added,
{
    if config::same_fixed_settings(current, next) {
        settings_agree_both_ways(current, next);
    }
    if config::same_fixed_settings(next, current) {
        settings_agree_both_ways(next, current);
    }
    if config::kept_backends_agree(current.static_ssh_backends@, next.static_ssh_backends@) {
        kept_backends_agree_both_ways(current, next);
    }
    if config::kept_backends_agree(next.static_ssh_backends@, current.static_ssh_backends@) {
        kept_backends_agree_both_ways(next, current);
    }
}

/// How many backends of a list another one has too.
spec fn count_common(
    backends: Seq<StaticSshBackendConfig>,
    others: Seq<StaticSshBackendConfig>,
) -> nat
    decreases backends.len(),
{
    if backends.len() == 0 {
        0
    } else {
        count_common(backends.drop_last(), others) + if config::ssh_place(
            others,
            backends.last().target.name@,
        ) is Some {
            1nat
        } else {
            0nat
        }
    }
}

proof fn all_are_common_or_missing(
    backends: Seq<StaticSshBackendConfig>,
    others: Seq<StaticSshBackendConfig>,
)
    ensures
        count_common(backends, others) + config::count_missing(backends, others) == backends.len(),
    decreases backends.len(),
{
    if backends.len() > 0 {
        all_are_common_or_missing(backends.drop_last(), others);
    }
}

/// The names of backends.
spec fn names_of(backends: Seq<StaticSshBackendConfig>) -> Set<Seq<char>> {
    backends.map_values(|backend: StaticSshBackendConfig| backend.target.name@).to_set()
}

/// No two backends share a name.
spec fn are_told_apart(backends: Seq<StaticSshBackendConfig>) -> bool {
    forall|i: int, j: int|
        0 <= i < j < backends.len() ==> (#[trigger] backends[i]).target.name@ != (
        #[trigger] backends[j]).target.name@
}

proof fn common_are_counted_by_name(
    backends: Seq<StaticSshBackendConfig>,
    others: Seq<StaticSshBackendConfig>,
)
    requires
        are_told_apart(backends),
    ensures
        names_of(backends).intersect(names_of(others)).finite(),
        count_common(backends, others) == names_of(backends).intersect(names_of(others)).len(),
    decreases backends.len(),
{
    let names = backends.map_values(|backend: StaticSshBackendConfig| backend.target.name@);
    let listed = others.map_values(|backend: StaticSshBackendConfig| backend.target.name@);
    if backends.len() == 0 {
        assert(names_of(backends).intersect(names_of(others)) =~= Set::empty());
    } else {
        let before = backends.drop_last();
        let last = backends.last().target.name@;
        common_are_counted_by_name(before, others);
        place_has_the_name(others, last);
        let fewer = before.map_values(|backend: StaticSshBackendConfig| backend.target.name@);
        assert forall|name: Seq<char>| names.contains(name) <==> #[trigger] fewer.contains(name)
            || name == last by {
            if fewer.contains(name) {
                let i = choose|i: int| 0 <= i < fewer.len() && fewer[i] == name;
                assert(names[i] == name);
            }
            if name == last {
                assert(names[backends.len() - 1] == name);
            }
            if names.contains(name) && name != last {
                let i = choose|i: int| 0 <= i < names.len() && names[i] == name;
                assert(fewer[i] == name);
            }
        }
        assert(!fewer.contains(last)) by {
            if fewer.contains(last) {
                let i = choose|i: int| 0 <= i < fewer.len() && fewer[i] == last;
                assert(backends[i].target.name@ == backends[backends.len() - 1].target.name@);
            }
        }
        assert(listed.contains(last) <==> config::ssh_place(others, last) is Some) by {
            if listed.contains(last) {
                let i = choose|i: int| 0 <= i < listed.len() && listed[i] == last;
                assert(others[i].target.name@ == last);
            }
            if let Some(place) = config::ssh_place(others, last) {
                assert(listed[place] == last);
            }
        }
        let smaller = names_of(before).intersect(names_of(others));
        let larger = names_of(backends).intersect(names_of(others));
        if listed.contains(last) {
            assert(larger =~= smaller.insert(last));
        } else {
            assert(larger =~= smaller);
        }
    }
}

proof fn names_are_told_apart(config: ServiceConfig)
    requires
        config.well_formed(),
    ensures
        are_told_apart(config.static_ssh_backends@),
{
    let backends = config.static_ssh_backends@;
    assert forall|i: int, j: int| 0 <= i < j < backends.len() implies (
    #[trigger] backends[i]).target.name@ != (#[trigger] backends[j]).target.name@ by {
        if backends[i].target.name@ == backends[j].target.name@ {
            names_are_distinct(config, i, j);
        }
    }
}

/// What a reload adds and removes is by how much the number of backends over SSH changes.
pub proof fn reload_counts_balance(
    current: ServiceConfig,
    next: ServiceConfig,
    changes: StaticSshReloadChanges,
)
    requires
        current.well_formed(),
        next.well_formed(),
        config::are_changes(current, next, changes),
    ensures
        next.static_ssh_backends@.len() + changes.removed == current.static_ssh_backends@.len()
            + changes.added,
{
    let backends = current.static_ssh_backends@;
    let others = next.static_ssh_backends@;
    names_are_told_apart(current);
    names_are_told_apart(next);
    all_are_common_or_missing(backends, others);
    all_are_common_or_missing(others, backends);
    common_are_counted_by_name(backends, others);
    common_are_counted_by_name(others, backends);
    assert(names_of(backends).intersect(names_of(others)) =~= names_of(others).intersect(
        names_of(backends),
    ));
}

proof fn nothing_is_missing_of_itself(
    backends: Seq<StaticSshBackendConfig>,
    all: Seq<StaticSshBackendConfig>,
)
    requires
        forall|i: int|
            0 <= i < backends.len() ==> config::ssh_place(
                all,
                (#[trigger] backends[i]).target.name@,
            ) is Some,
    ensures
        config::count_missing(backends, all) == 0,
    decreases backends.len(),
{
    if backends.len() > 0 {
        let before = backends.drop_last();
        assert forall|i: int| 0 <= i < before.len() implies config::ssh_place(
            all,
            (#[trigger] before[i]).target.name@,
        ) is Some by {
            assert(before[i] == backends[i]);
        }
        nothing_is_missing_of_itself(before, all);
        assert(backends.last() == backends[backends.len() - 1]);
    }
}

/// A reload of the settings that are there passes, adds nothing and removes nothing.
pub proof fn reload_of_the_same_changes_nothing(
    current: ServiceConfig,
    changes: StaticSshReloadChanges,
)
    requires
        current.well_formed(),
        config::are_changes(current, current, changes),
    ensures
        config::reload_fault(current, current) is None,
        changes.added == 0,
        changes.removed == 0,
{
    let backends = current.static_ssh_backends@;
    let nomad = current.nomad_backends@;
    assert forall|i: int| 0 <= i < nomad.len() implies (#[trigger] nomad[i]).same_as(nomad[i]) by {
        model::members_agree_with_themselves(nomad[i].driver_config@);
        if let Some(prestart) = nomad[i].prestart {
            model::members_agree_with_themselves(prestart.driver_config@);
        }
    }
    assert forall|i: int| 0 <= i < backends.len() implies match config::ssh_place(
        backends,
        (#[trigger] backends[i]).target.name@,
    ) {
        Some(place) => place == i,
        None => false,
    } by {
        place_has_the_name(backends, backends[i].target.name@);
        if let Some(place) = config::ssh_place(backends, backends[i].target.name@) {
            names_are_distinct(current, place, i);
        }
    }
    assert(config::kept_backends_agree(backends, backends)) by {
        assert forall|i: int| 0 <= i < backends.len() implies match config::ssh_place(
            backends,
            (#[trigger] backends[i]).target.name@,
        ) {
            Some(place) => backends[place].same_as(backends[i]),
            None => true,
        } by {
            assert(config::ssh_place(backends, backends[i].target.name@) == Some(i));
        }
    }
    nothing_is_missing_of_itself(backends, backends);
}

} // verus!
