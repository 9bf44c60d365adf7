//! The admin tool's view of `devices.json`: the checks made when it is
//! loaded, the edits the admin commands make, and the device table.

use vstd::prelude::*;
use vstd::string::StringExecFns;
use crate::cli_protocol::{
    Device, DevicesConfig, DeviceStatus, RelayResponse, device_ids, device_aliases,
};
use crate::lookup::{alias_view, first_alias, lemma_first_alias_stable, lemma_first_alias_found};
use crate::text::{same_text, owned, push_chars};

verus! {

broadcast use vstd::string::group_string_axioms;

/// Why a device list is refused.
#[derive(Debug, Clone)]
pub enum ConfigError {
    /// Two devices share this device id.
    DuplicateDeviceId(String),
    /// Two devices share this alias.
    DuplicateAlias(String),
}

impl ConfigError {
    pub open spec fn spec_message(&self) -> Seq<char> {
        match self {
            ConfigError::DuplicateDeviceId(id) => "Duplicate device_id found: "@ + id@,
            ConfigError::DuplicateAlias(a) => "Duplicate alias found: "@ + a@,
        }
    }

    /// The text the error is reported with.
    pub fn message(&self) -> (s: String)
        ensures
            s@ == self.spec_message(),
    {
        match self {
            ConfigError::DuplicateDeviceId(id) => {
                let mut s = owned("Duplicate device_id found: ");
                s.append(id.as_str());
                s
            },
            ConfigError::DuplicateAlias(a) => {
                let mut s = owned("Duplicate alias found: ");
                s.append(a.as_str());
                s
            },
        }
    }
}

/// The id at `i` already occurs before it.
pub open spec fn id_repeats_at(ids: Seq<Seq<char>>, i: int) -> bool {
    exists|j: int| 0 <= j < i && ids[j] == ids[i]
}

/// The alias at `i` is present and already occurs before it.
pub open spec fn alias_repeats_at(aliases: Seq<Option<Seq<char>>>, i: int) -> bool {
    aliases[i] is Some && exists|j: int| 0 <= j < i && aliases[j] == aliases[i]
}

/// The first of the first `n` ids that repeats an earlier one.
pub open spec fn first_repeated_id(ids: Seq<Seq<char>>, n: int) -> Option<int>
    decreases n,
{
    if n <= 0 {
        None
    } else {
        match first_repeated_id(ids, n - 1) {
            Some(i) => Some(i),
            None => if id_repeats_at(ids, n - 1) {
                Some(n - 1)
            } else {
                None
            },
        }
    }
}

/// The first of the first `n` aliases that repeats an earlier one.
pub open spec fn first_repeated_alias(aliases: Seq<Option<Seq<char>>>, n: int) -> Option<int>
    decreases n,
{
    if n <= 0 {
        None
    } else {
        match first_repeated_alias(aliases, n - 1) {
            Some(i) => Some(i),
            None => if alias_repeats_at(aliases, n - 1) {
                Some(n - 1)
            } else {
                None
            },
        }
    }
}

proof fn lemma_first_repeated_id_stable(ids: Seq<Seq<char>>, m: int, n: int)
    requires
        m <= n,
        first_repeated_id(ids, m) is Some,
    ensures
        first_repeated_id(ids, n) == first_repeated_id(ids, m),
    decreases n - m,
{
    if m < n {
        lemma_first_repeated_id_stable(ids, m, n - 1);
    }
}

proof fn lemma_first_repeated_alias_stable(aliases: Seq<Option<Seq<char>>>, m: int, n: int)
    requires
        m <= n,
        first_repeated_alias(aliases, m) is Some,
    ensures
        first_repeated_alias(aliases, n) == first_repeated_alias(aliases, m),
    decreases n - m,
{
    if m < n {
        lemma_first_repeated_alias_stable(aliases, m, n - 1);
    }
}

/// The outcome of loading a device list: refused at the first repeated
/// device id, else at the first repeated alias, else accepted.
pub open spec fn load_outcome(devs: Seq<Device>) -> Option<ConfigError> {
    let ids = device_ids(devs);
    let aliases = device_aliases(devs);
    match first_repeated_id(ids, devs.len() as int) {
        Some(i) => Some(ConfigError::DuplicateDeviceId(devs[i].device_id)),
        None => match first_repeated_alias(aliases, devs.len() as int) {
            Some(i) => Some(ConfigError::DuplicateAlias(devs[i].alias.unwrap())),
            None => None,
        },
    }
}

/// Checks a parsed device list: no device id and no alias may occur twice.
/// The list is handed back when it passes.
pub fn load_config(parsed: DevicesConfig) -> (r: Result<DevicesConfig, ConfigError>)
    ensures
        match r {
            Ok(c) => c == parsed && load_outcome(parsed.devices@) is None,
            Err(e) => load_outcome(parsed.devices@) == Some(e),
        },
{
    let ghost devs = parsed.devices@;
    let ghost ids = device_ids(devs);
    let ghost aliases = device_aliases(devs);
    let n = parsed.devices.len();
    for i in 0..n
        invariant
            n == devs.len(),
            devs == parsed.devices@,
            ids == device_ids(devs),
            first_repeated_id(ids, i as int) is None,
    {
        let mut j: usize = 0;
        while j < i
            invariant
                0 <= j <= i < n,
                n == devs.len(),
                devs == parsed.devices@,
                ids == device_ids(devs),
                first_repeated_id(ids, i as int) is None,
                forall|k: int| 0 <= k < j ==> ids[k] != ids[i as int],
            decreases i - j,
        {
            if same_text(parsed.devices[j].device_id.as_str(), parsed.devices[i].device_id.as_str()) {
                assert(ids[j as int] == ids[i as int]);
                assert(id_repeats_at(ids, i as int));
                proof {
                    lemma_first_repeated_id_stable(ids, i + 1, n as int);
                }
                return Err(ConfigError::DuplicateDeviceId(parsed.devices[i].device_id.clone()));
            }
            j = j + 1;
        }
    }
    for i in 0..n
        invariant
            n == devs.len(),
            devs == parsed.devices@,
            ids == device_ids(devs),
            aliases == device_aliases(devs),
            first_repeated_id(ids, n as int) is None,
            first_repeated_alias(aliases, i as int) is None,
    {
        if let Some(a) = &parsed.devices[i].alias {
            let mut j: usize = 0;
            while j < i
                invariant
                    0 <= j <= i < n,
                    n == devs.len(),
                    devs == parsed.devices@,
                    ids == device_ids(devs),
                    aliases == device_aliases(devs),
                    first_repeated_id(ids, n as int) is None,
                    first_repeated_alias(aliases, i as int) is None,
                    aliases[i as int] == Some(a@),
                    devs[i as int].alias == Some(*a),
                    forall|k: int| 0 <= k < j ==> aliases[k] != aliases[i as int],
                decreases i - j,
            {
                let same = match &parsed.devices[j].alias {
                    Some(b) => same_text(b.as_str(), a.as_str()),
                    None => false,
                };
                if same {
                    assert(aliases[j as int] == aliases[i as int]);
                    assert(alias_repeats_at(aliases, i as int));
                    proof {
                        lemma_first_repeated_alias_stable(aliases, i + 1, n as int);
                    }
                    return Err(ConfigError::DuplicateAlias(a.clone()));
                }
                j = j + 1;
            }
        }
    }
    Ok(parsed)
}

/// What a status change did.
#[derive(Debug, Clone)]
pub enum StatusChange {
    /// The device (full id given) already had that status; nothing changed.
    AlreadySet(String),
    /// The device (full id given) now has the new status.
    Changed(String),
}

/// Why an admin edit was refused.
#[derive(Debug, Clone)]
pub enum AdminError {
    /// No device answers to this identifier.
    DeviceNotFound(String),
    /// The alias (first field) already belongs to the device whose id is
    /// the second field.
    AliasInUse(String, String),
}

/// Gives the device that `device` names the status `status` (the approve
/// and reject commands).
pub fn set_device_status(config: &mut DevicesConfig, device: &str, status: DeviceStatus) -> (r:
    Result<StatusChange, AdminError>)
    ensures
        final(config).max_devices == old(config).max_devices,
        final(config).secret_key == old(config).secret_key,
        match old(config).resolve(device@) {
            None => r matches Err(AdminError::DeviceNotFound(d)) && d@ == device@ && final(config).devices@ == old(config).devices@,
            Some(i) => if old(config).devices@[i].status == status {
                r matches Ok(StatusChange::AlreadySet(id)) && id@ == old(config).devices@[i].device_id@
                    && final(config).devices@ == old(config).devices@
            } else {
                r matches Ok(StatusChange::Changed(id)) && id@ == old(config).devices@[i].device_id@
                    && final(config).devices@ == old(config).devices@.update(
                    i,
                    Device { status, ..old(config).devices@[i] },
                )
            },
        },
{
    proof {
        old(config).lemma_resolve_in_bounds(device@);
    }
    match config.find_device_mut(device) {
        None => Err(AdminError::DeviceNotFound(owned(device))),
        Some(entry) => {
            let ghost i = old(config).resolve(device@)->0;
            assert(old(config).devices@.update(i, old(config).devices@[i]) =~= old(
                config,
            ).devices@);
            if entry.status == status {
                Ok(StatusChange::AlreadySet(entry.device_id.clone()))
            } else {
                let id = entry.device_id.clone();
                entry.status = status;
                Ok(StatusChange::Changed(id))
            }
        },
    }
}

/// No alias is held by two devices.
pub open spec fn aliases_distinct(devs: Seq<Device>) -> bool {
    forall|i: int, j: int|
        0 <= i < j < devs.len() && alias_view(#[trigger] devs[i].alias) is Some ==> alias_view(
            devs[i].alias,
        ) != alias_view(#[trigger] devs[j].alias)
}

/// Sets the alias of the device that `device_id` names. The alias is
/// refused when another device already holds it. Gives the full id of the
/// renamed device. On a list whose aliases were distinct, they stay
/// distinct, and the renamed device is the only one holding the alias.
pub fn set_device_alias(config: &mut DevicesConfig, device_id: &str, alias: &str) -> (r: Result<
    String,
    AdminError,
>)
    ensures
        final(config).max_devices == old(config).max_devices,
        final(config).secret_key == old(config).secret_key,
        ({
            let devs = old(config).devices@;
            let owner = first_alias(device_aliases(devs), alias@, devs.len() as int);
            let target = old(config).resolve(device_id@);
            if owner is Some && target != owner {
                &&& r matches Err(AdminError::AliasInUse(a, o)) && a@ == alias@ && o@
                    == devs[owner->0].device_id@
                &&& final(config).devices@ == devs
            } else {
                match target {
                    None => {
                        &&& r matches Err(AdminError::DeviceNotFound(d)) && d@ == device_id@
                        &&& final(config).devices@ == devs
                    },
                    Some(i) => {
                        &&& r matches Ok(id) && id@ == devs[i].device_id@
                        &&& final(config).devices@[i].alias matches Some(na) && na@ == alias@
                        &&& final(config).devices@ == devs.update(
                            i,
                            Device { alias: final(config).devices@[i].alias, ..devs[i] },
                        )
                        &&& aliases_distinct(devs) ==> {
                            &&& aliases_distinct(final(config).devices@)
                            &&& forall|j: int|
                                0 <= j < devs.len() && j != i ==> alias_view(
                                    #[trigger] final(config).devices@[j].alias,
                                ) != Some(alias@)
                        }
                    },
                }
            }
        }),
{
    let ghost devs = config.devices@;
    let ghost aliases = device_aliases(devs);
    proof {
        old(config).lemma_resolve_in_bounds(device_id@);
        lemma_first_alias_found(aliases, alias@, devs.len() as int);
    }
    let n = config.devices.len();
    let mut owner: Option<usize> = None;
    let mut i: usize = 0;
    while i < n
        invariant
            0 <= i <= n,
            n == devs.len(),
            devs == config.devices@,
            aliases == device_aliases(devs),
            *config == *old(config),
            owner is None ==> first_alias(aliases, alias@, i as int) is None,
            owner matches Some(k) ==> first_alias(aliases, alias@, n as int) == Some(k as int)
                && k < n,
        decreases n - i,
    {
        if owner.is_none() {
            let hit = match &config.devices[i].alias {
                Some(a) => same_text(a.as_str(), alias),
                None => false,
            };
            if hit {
                assert(aliases[i as int] == Some(alias@));
                proof {
                    lemma_first_alias_stable(aliases, alias@, i + 1, n as int);
                }
                owner = Some(i);
            }
        }
        i = i + 1;
    }
    let target = config.resolve_index(device_id);
    if let Some(k) = owner {
        let same = match target {
            Some(t) => t == k,
            None => false,
        };
        if !same {
            return Err(AdminError::AliasInUse(owned(alias), config.devices[k].device_id.clone()));
        }
    }
    let ghost t = target;
    match config.find_device_mut(device_id) {
        None => Err(AdminError::DeviceNotFound(owned(device_id))),
        Some(entry) => {
            let id = entry.device_id.clone();
            entry.alias = Some(owned(alias));
            proof {
                let ti = old(config).resolve(device_id@)->0;
                let fin = config.devices@;
                if aliases_distinct(devs) {
                    assert forall|j: int|
                        0 <= j < devs.len() && j != ti implies alias_view(
                        #[trigger] fin[j].alias,
                    ) != Some(alias@) by {
                        assert(fin[j] == devs[j]);
                        assert(aliases[j] == alias_view(devs[j].alias));
                        if j > ti && owner is Some {
                            assert(alias_view(devs[ti].alias) == Some(alias@)) by {
                                assert(aliases[ti] == Some(alias@));
                            }
                        }
                    }
                    assert forall|a: int, b: int|
                        0 <= a < b < fin.len() && alias_view(#[trigger] fin[a].alias)
                            is Some implies alias_view(fin[a].alias) != alias_view(
                        #[trigger] fin[b].alias,
                    ) by {
                        if a != ti && b != ti {
                            assert(fin[a] == devs[a]);
                            assert(fin[b] == devs[b]);
                        } else if a == ti {
                            assert(fin[b] == devs[b]);
                            assert(aliases[b] == alias_view(devs[b].alias));
                            if b > ti && owner is Some {
                                assert(aliases[ti] == Some(alias@));
                            }
                        } else {
                            assert(fin[a] == devs[a]);
                            assert(aliases[a] == alias_view(devs[a].alias));
                            if a > ti && owner is Some {
                                assert(aliases[ti] == Some(alias@));
                            }
                        }
                    }
                }
            }
            Ok(id)
        },
    }
}

/// Removes the device that `device` names, handing it back.
pub fn remove_device_entry(config: &mut DevicesConfig, device: &str) -> (r: Result<
    Device,
    AdminError,
>)
    ensures
        final(config).max_devices == old(config).max_devices,
        final(config).secret_key == old(config).secret_key,
        match old(config).resolve(device@) {
            None => r matches Err(AdminError::DeviceNotFound(d)) && d@ == device@ && final(config).devices@ == old(config).devices@,
            Some(i) => r == Ok::<Device, AdminError>(old(config).devices@[i]) && final(config).devices@ == old(config).devices@.remove(i),
        },
{
    proof {
        old(config).lemma_resolve_in_bounds(device@);
    }
    match config.remove_device(device) {
        Some(d) => Ok(d),
        None => Err(AdminError::DeviceNotFound(owned(device))),
    }
}

/// Why the reload command failed once the relay answered.
#[derive(Debug, Clone)]
pub enum ReloadFailure {
    /// The relay could not reload; its message.
    Refused(String),
    /// The relay answered with something other than a reload result.
    Unexpected,
}

impl ReloadFailure {
    pub open spec fn spec_message(&self) -> Seq<char> {
        match self {
            ReloadFailure::Refused(m) => "Reload failed: "@ + m@,
            ReloadFailure::Unexpected => "Unexpected response from Relay Service"@,
        }
    }

    /// The text the failure is reported with.
    pub fn message(&self) -> (s: String)
        ensures
            s@ == self.spec_message(),
    {
        match self {
            ReloadFailure::Refused(m) => {
                let mut s = owned("Reload failed: ");
                push_chars(&mut s, m.as_str());
                s
            },
            ReloadFailure::Unexpected => owned("Unexpected response from Relay Service"),
        }
    }
}

/// The outcome of the reload command from the relay's answer: its message
/// on success.
pub fn reload_reply_outcome(resp: RelayResponse) -> (r: Result<String, ReloadFailure>)
    ensures
        match resp {
            RelayResponse::ADMIN_RELOAD_OK { message } => r == Ok::<String, ReloadFailure>(message),
            RelayResponse::ADMIN_RELOAD_ERROR { message } => r == Err::<String, ReloadFailure>(
                ReloadFailure::Refused(message),
            ),
            _ => r matches Err(ReloadFailure::Unexpected),
        },
{
    match resp {
        RelayResponse::ADMIN_RELOAD_OK { message } => Ok(message),
        RelayResponse::ADMIN_RELOAD_ERROR { message } => Err(ReloadFailure::Refused(message)),
        _ => Err(ReloadFailure::Unexpected),
    }
}

} // verus!
