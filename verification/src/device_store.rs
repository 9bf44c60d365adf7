//! The relay's device list: validation of `devices.json`, lookups, pairing
//! updates and approval checks. Reading and writing the file is left to the
//! caller, which hands over what it parsed and saves after each change.

use vstd::prelude::*;
use vstd::string::StringExecFns;
use crate::codec::{UtcTime, utc_now_or_epoch};
use crate::lookup::{
    alias_view, first_alias, first_id, prefix_count, last_prefix, resolve_id_first,
    lemma_resolve_in_range, lemma_first_alias_stable, lemma_first_id_stable, lemma_first_id_found,
};
use crate::text::{same_text, starts_with, owned, is_prefix};

verus! {

broadcast use vstd::string::group_string_axioms;

/// Device status.
#[derive(Debug, Clone, Copy, PartialEq, Eq, Structural)]
pub enum DeviceStatus {
    Pending,
    Approved,
    Rejected,
}

/// Device information stored in devices.json.
#[derive(Debug, Clone)]
pub struct DeviceInfo {
    pub device_id: String,
    pub alias: Option<String>,
    pub device_name: String,
    pub platform: String,
    pub shell: String,
    pub status: DeviceStatus,
    pub created_at: UtcTime,
    pub last_seen: UtcTime,
}

fn clone_alias(a: &Option<String>) -> (r: Option<String>)
    ensures
        r == *a,
{
    match a {
        Some(s) => Some(s.clone()),
        None => None,
    }
}

impl DeviceInfo {
    /// A copy of the record.
    pub fn snapshot(&self) -> (r: DeviceInfo)
        ensures
            r == *self,
    {
        DeviceInfo {
            device_id: self.device_id.clone(),
            alias: clone_alias(&self.alias),
            device_name: self.device_name.clone(),
            platform: self.platform.clone(),
            shell: self.shell.clone(),
            status: self.status,
            created_at: self.created_at,
            last_seen: self.last_seen,
        }
    }
}

/// Configuration file structure (devices.json).
#[derive(Debug, Clone)]
pub struct DevicesConfig {
    pub max_devices: usize,
    pub secret_key: String,
    pub devices: Vec<DeviceInfo>,
}

impl Default for DevicesConfig {
    /// The configuration written when none exists: room for ten devices and
    /// a placeholder secret.
    fn default() -> (r: Self)
        ensures
            r.max_devices == 10,
            r.secret_key@ == "change-me-in-production"@,
            r.devices@.len() == 0,
    {
        DevicesConfig {
            max_devices: 10,
            secret_key: owned("change-me-in-production"),
            devices: Vec::new(),
        }
    }
}

/// The device ids, in order.
pub open spec fn info_ids(devs: Seq<DeviceInfo>) -> Seq<Seq<char>> {
    Seq::new(devs.len(), |i: int| devs[i].device_id@)
}

/// The aliases, in order.
pub open spec fn info_aliases(devs: Seq<DeviceInfo>) -> Seq<Option<Seq<char>>> {
    Seq::new(devs.len(), |i: int| alias_view(devs[i].alias))
}

/// Why a configuration is refused.
#[derive(Debug, Clone)]
pub enum ConfigError {
    /// A device id occurs twice: the id, the name of the device that had it
    /// first, the name of the device that repeats it.
    DuplicateDeviceId { device_id: String, first_name: String, second_name: String },
    /// An alias occurs twice: the alias and the two device names.
    DuplicateAlias { alias: String, first_name: String, second_name: String },
}

impl ConfigError {
    pub open spec fn spec_message(&self) -> Seq<char> {
        match self {
            ConfigError::DuplicateDeviceId { device_id, first_name, second_name } =>
                "Duplicate device_id '"@ + device_id@ + "': found in '"@ + first_name@
                + "' and '"@ + second_name@ + "'"@,
            ConfigError::DuplicateAlias { alias, first_name, second_name } => "Duplicate alias '"@
                + alias@ + "': found in '"@ + first_name@ + "' and '"@ + second_name@ + "'"@,
        }
    }

    /// The text the error is reported with.
    pub fn message(&self) -> (s: String)
        ensures
            s@ == self.spec_message(),
    {
        let (head, key, a, b) = match self {
            ConfigError::DuplicateDeviceId { device_id, first_name, second_name } => (
                "Duplicate device_id '",
                device_id,
                first_name,
                second_name,
            ),
            ConfigError::DuplicateAlias { alias, first_name, second_name } => (
                "Duplicate alias '",
                alias,
                first_name,
                second_name,
            ),
        };
        let mut s = owned(head);
        s.append(key.as_str());
        s.append("': found in '");
        s.append(a.as_str());
        s.append("' and '");
        s.append(b.as_str());
        s.append("'");
        s
    }
}

/// The earlier device that has the same id as device `i`.
pub open spec fn earlier_same_id(ids: Seq<Seq<char>>, i: int) -> Option<int> {
    first_id(ids, ids[i], i)
}

/// The earlier device that has the same (present) alias as device `i`.
pub open spec fn earlier_same_alias(aliases: Seq<Option<Seq<char>>>, i: int) -> Option<int> {
    match aliases[i] {
        Some(a) => first_alias(aliases, a, i),
        None => None,
    }
}

/// The first of the first `n` devices whose id or alias repeats an earlier
/// device's.
pub open spec fn first_conflict(devs: Seq<DeviceInfo>, n: int) -> Option<int>
    decreases n,
{
    if n <= 0 {
        None
    } else {
        match first_conflict(devs, n - 1) {
            Some(i) => Some(i),
            None => if earlier_same_id(info_ids(devs), n - 1) is Some || earlier_same_alias(
                info_aliases(devs),
                n - 1,
            ) is Some {
                Some(n - 1)
            } else {
                None
            },
        }
    }
}

proof fn lemma_first_conflict_stable(devs: Seq<DeviceInfo>, m: int, n: int)
    requires
        m <= n,
        first_conflict(devs, m) is Some,
    ensures
        first_conflict(devs, n) == first_conflict(devs, m),
    decreases n - m,
{
    if m < n {
        lemma_first_conflict_stable(devs, m, n - 1);
    }
}

/// The error a device list is refused with: at the first device that
/// repeats an id (checked first) or an alias, naming the device that had it
/// before.
pub open spec fn conflict_error(devs: Seq<DeviceInfo>) -> Option<ConfigError> {
    match first_conflict(devs, devs.len() as int) {
        None => None,
        Some(i) => match earlier_same_id(info_ids(devs), i) {
            Some(j) => Some(
                ConfigError::DuplicateDeviceId {
                    device_id: devs[i].device_id,
                    first_name: devs[j].device_name,
                    second_name: devs[i].device_name,
                },
            ),
            None => Some(
                ConfigError::DuplicateAlias {
                    alias: devs[i].alias.unwrap(),
                    first_name: devs[earlier_same_alias(info_aliases(devs), i)->0].device_name,
                    second_name: devs[i].device_name,
                },
            ),
        },
    }
}

/// Why a configuration could not be (re)loaded.
#[derive(Debug, Clone)]
pub enum LoadError {
    /// The file could not be read or parsed; the text says why.
    Unreadable(String),
    /// The file was parsed but its device list is refused.
    Invalid(ConfigError),
}

impl LoadError {
    pub open spec fn spec_message(&self) -> Seq<char> {
        match self {
            LoadError::Unreadable(t) => t@,
            LoadError::Invalid(e) => e.spec_message(),
        }
    }

    /// The text the error is reported with.
    pub fn message(&self) -> (s: String)
        ensures
            s@ == self.spec_message(),
    {
        match self {
            LoadError::Unreadable(t) => t.clone(),
            LoadError::Invalid(e) => e.message(),
        }
    }
}

/// Why a device could not be stored.
#[derive(Debug, Clone, PartialEq, Eq, Structural)]
pub enum StoreError {
    /// A new device would exceed `max_devices`.
    DeviceLimitReached,
}

/// The device list.
pub struct DeviceStore {
    pub config_path: String,
    pub config: DevicesConfig,
}

/// The record with a new last-seen time.
pub open spec fn with_last_seen(d: DeviceInfo, t: UtcTime) -> DeviceInfo {
    DeviceInfo { last_seen: t, ..d }
}

/// The devices after `d` is put in: the device with its id gets its name,
/// platform, shell and last-seen time (keeping alias, status and creation
/// time), or `d` is added at the end.
pub open spec fn upserted(devs: Seq<DeviceInfo>, d: DeviceInfo) -> Seq<DeviceInfo> {
    match first_id(info_ids(devs), d.device_id@, devs.len() as int) {
        Some(i) => devs.update(
            i,
            DeviceInfo {
                device_name: d.device_name,
                platform: d.platform,
                shell: d.shell,
                last_seen: d.last_seen,
                ..devs[i]
            },
        ),
        None => devs.push(d),
    }
}

/// A device put in is found again by its id, with the name, platform, shell
/// and last-seen time it was put in with; the other devices are found where
/// they were.
pub proof fn lemma_upserted_device_found(devs: Seq<DeviceInfo>, d: DeviceInfo, other: Seq<char>)
    ensures
        ({
            let after = upserted(devs, d);
            &&& first_id(info_ids(after), d.device_id@, after.len() as int) matches Some(i) && {
                &&& after[i].device_id@ == d.device_id@
                &&& after[i].device_name == d.device_name
                &&& after[i].platform == d.platform
                &&& after[i].shell == d.shell
                &&& after[i].last_seen == d.last_seen
            }
            &&& other != d.device_id@ ==> first_id(info_ids(after), other, after.len() as int)
                == first_id(info_ids(devs), other, devs.len() as int)
        }),
{
    let ids = info_ids(devs);
    let after = upserted(devs, d);
    let nids = info_ids(after);
    let k = d.device_id@;
    lemma_first_id_found(ids, k, devs.len() as int);
    lemma_first_id_found(ids, other, devs.len() as int);
    match first_id(ids, k, devs.len() as int) {
        Some(i) => {
            assert(nids =~= ids);
        },
        None => {
            assert(nids =~= ids.push(k));
            lemma_first_id_found(nids, k, after.len() as int);
            lemma_first_id_found(nids, other, after.len() as int);
            assert(first_id(nids, k, devs.len() as int) == first_id(ids, k, devs.len() as int)) by {
                lemma_first_id_prefix(ids, nids, k, devs.len() as int);
            }
            assert(first_id(nids, other, devs.len() as int) == first_id(ids, other, devs.len() as int)) by {
                lemma_first_id_prefix(ids, nids, other, devs.len() as int);
            }
        },
    }
}

/// `first_id` over the first `n` ids depends only on them.
proof fn lemma_first_id_prefix(a: Seq<Seq<char>>, b: Seq<Seq<char>>, key: Seq<char>, n: int)
    requires
        0 <= n <= a.len(),
        n <= b.len(),
        forall|j: int| 0 <= j < n ==> a[j] == b[j],
    ensures
        first_id(a, key, n) == first_id(b, key, n),
    decreases n,
{
    if n > 0 {
        lemma_first_id_prefix(a, b, key, n - 1);
    }
}

impl DeviceStore {
    /// The devices, in file order.
    pub open spec fn devices(&self) -> Seq<DeviceInfo> {
        self.config.devices@
    }

    /// The index of the device with exactly this id.
    pub open spec fn index_of(&self, device_id: Seq<char>) -> Option<int> {
        first_id(info_ids(self.devices()), device_id, self.devices().len() as int)
    }

    /// The index of the device that `key` names: exact id, then alias, then
    /// a prefix of exactly one id.
    pub open spec fn resolve(&self, key: Seq<char>) -> Option<int> {
        resolve_id_first(info_ids(self.devices()), info_aliases(self.devices()), key)
    }

    /// Whether the device with this id is approved.
    pub open spec fn approved(&self, device_id: Seq<char>) -> bool {
        match self.index_of(device_id) {
            Some(i) => self.devices()[i].status == DeviceStatus::Approved,
            None => false,
        }
    }

    /// A resolved index is in range.
    pub proof fn lemma_indexes_in_bounds(&self, key: Seq<char>)
        ensures
            self.resolve(key) matches Some(i) ==> 0 <= i < self.devices().len(),
            self.index_of(key) matches Some(i) ==> 0 <= i < self.devices().len()
                && self.devices()[i].device_id@ == key,
    {
        lemma_resolve_in_range(info_ids(self.devices()), info_aliases(self.devices()), key);
        lemma_first_id_found(info_ids(self.devices()), key, self.devices().len() as int);
    }

    /// Checks a device list: no device id and no alias may occur twice.
    pub fn validate_config(config: &DevicesConfig) -> (r: Result<(), ConfigError>)
        ensures
            match conflict_error(config.devices@) {
                None => r is Ok,
                Some(e) => r == Err::<(), ConfigError>(e),
            },
    {
        let ghost devs = config.devices@;
        let ghost ids = info_ids(devs);
        let ghost aliases = info_aliases(devs);
        let n = config.devices.len();
        for i in 0..n
            invariant
                n == devs.len(),
                devs == config.devices@,
                ids == info_ids(devs),
                aliases == info_aliases(devs),
                first_conflict(devs, i as int) is None,
        {
            let d = &config.devices[i];
            let mut j: usize = 0;
            while j < i
                invariant
                    0 <= j <= i < n,
                    n == devs.len(),
                    devs == config.devices@,
                    ids == info_ids(devs),
                    *d == devs[i as int],
                    first_conflict(devs, i as int) is None,
                    first_id(ids, ids[i as int], j as int) is None,
                decreases i - j,
            {
                if same_text(config.devices[j].device_id.as_str(), d.device_id.as_str()) {
                    assert(ids[j as int] == ids[i as int]);
                    proof {
                        lemma_first_id_stable(ids, ids[i as int], j + 1, i as int);
                        lemma_first_id_found(ids, ids[i as int], i as int);
                        lemma_first_conflict_stable(devs, i + 1, n as int);
                    }
                    return Err(
                        ConfigError::DuplicateDeviceId {
                            device_id: d.device_id.clone(),
                            first_name: config.devices[j].device_name.clone(),
                            second_name: d.device_name.clone(),
                        },
                    );
                }
                j = j + 1;
            }
            if let Some(a) = &d.alias {
                let mut j: usize = 0;
                while j < i
                    invariant
                        0 <= j <= i < n,
                        n == devs.len(),
                        devs == config.devices@,
                        ids == info_ids(devs),
                        aliases == info_aliases(devs),
                        *d == devs[i as int],
                        d.alias == Some(*a),
                        first_id(ids, ids[i as int], i as int) is None,
                        first_conflict(devs, i as int) is None,
                        first_alias(aliases, a@, j as int) is None,
                    decreases i - j,
                {
                    let same = match &config.devices[j].alias {
                        Some(b) => same_text(b.as_str(), a.as_str()),
                        None => false,
                    };
                    if same {
                        assert(aliases[j as int] == Some(a@));
                        proof {
                            lemma_first_alias_stable(aliases, a@, j + 1, i as int);
                            lemma_first_conflict_stable(devs, i + 1, n as int);
                        }
                        return Err(
                            ConfigError::DuplicateAlias {
                                alias: a.clone(),
                                first_name: config.devices[j].device_name.clone(),
                                second_name: d.device_name.clone(),
                            },
                        );
                    }
                    j = j + 1;
                }
            }
        }
        Ok(())
    }

    /// The configuration to use: the default when there is no file, else the
    /// parsed one once it passes validation.
    pub fn load_config(loaded: Option<DevicesConfig>) -> (r: Result<DevicesConfig, ConfigError>)
        ensures
            match loaded {
                None => r matches Ok(c) && c.max_devices == 10 && c.secret_key@
                    == "change-me-in-production"@ && c.devices@.len() == 0,
                Some(c) => match conflict_error(c.devices@) {
                    Some(e) => r == Err::<DevicesConfig, ConfigError>(e),
                    None => r == Ok::<DevicesConfig, ConfigError>(c),
                },
            },
    {
        match loaded {
            None => Ok(DevicesConfig::default()),
            Some(c) => {
                Self::validate_config(&c)?;
                Ok(c)
            },
        }
    }

    /// Creates the store from what was read at `config_path`.
    pub fn new(config_path: &str, loaded: Option<DevicesConfig>) -> (r: Result<
        DeviceStore,
        ConfigError,
    >)
        ensures
            match loaded {
                None => r matches Ok(s) && s.config_path@ == config_path@ && s.config.max_devices
                    == 10 && s.config.secret_key@ == "change-me-in-production"@
                    && s.devices().len() == 0,
                Some(c) => match conflict_error(c.devices@) {
                    Some(e) => r matches Err(e2) && e2 == e,
                    None => r matches Ok(s) && s.config_path@ == config_path@ && s.config == c,
                },
            },
    {
        let config = Self::load_config(loaded)?;
        Ok(DeviceStore { config_path: owned(config_path), config })
    }

    /// Replaces the configuration with what was read again, giving the new
    /// device count; on failure the store keeps its configuration.
    pub fn reload(&mut self, loaded: Result<Option<DevicesConfig>, String>) -> (r: Result<
        usize,
        LoadError,
    >)
        ensures
            final(self).config_path == old(self).config_path,
            match loaded {
                Err(t) => r matches Err(LoadError::Unreadable(t2)) && t2 == t && final(self).config
                    == old(self).config,
                Ok(None) => r == Ok::<usize, LoadError>(0) && final(self).config.max_devices == 10
                    && final(self).config.secret_key@ == "change-me-in-production"@
                    && final(self).devices().len() == 0,
                Ok(Some(c)) => match conflict_error(c.devices@) {
                    Some(e) => r matches Err(LoadError::Invalid(e2)) && e2 == e && final(self).config == old(self).config,
                    None => r matches Ok(k) && k == c.devices@.len() && final(self).config == c,
                },
            },
    {
        let parsed = match loaded {
            Err(t) => {
                return Err(LoadError::Unreadable(t));
            },
            Ok(p) => p,
        };
        match Self::load_config(parsed) {
            Err(e) => Err(LoadError::Invalid(e)),
            Ok(config) => {
                let count = config.devices.len();
                self.config = config;
                Ok(count)
            },
        }
    }

    /// Get the secret key.
    pub fn get_secret_key(&self) -> (r: String)
        ensures
            r == self.config.secret_key,
    {
        self.config.secret_key.clone()
    }

    /// Get max devices limit.
    pub fn get_max_devices(&self) -> (r: usize)
        ensures
            r == self.config.max_devices,
    {
        self.config.max_devices
    }

    /// Get current device count.
    pub fn get_device_count(&self) -> (r: usize)
        ensures
            r == self.devices().len(),
    {
        self.config.devices.len()
    }

    fn position_of(&self, device_id: &str) -> (r: Option<usize>)
        ensures
            match r {
                Some(i) => self.index_of(device_id@) == Some(i as int) && i < self.devices().len(),
                None => self.index_of(device_id@) is None,
            },
    {
        let ghost ids = info_ids(self.devices());
        let n = self.config.devices.len();
        for i in 0..n
            invariant
                n == self.devices().len(),
                ids == info_ids(self.devices()),
                first_id(ids, device_id@, i as int) is None,
        {
            if same_text(self.config.devices[i].device_id.as_str(), device_id) {
                assert(ids[i as int] == device_id@);
                proof {
                    lemma_first_id_stable(ids, device_id@, i + 1, n as int);
                }
                return Some(i);
            }
        }
        None
    }

    fn resolve_position(&self, key: &str) -> (r: Option<usize>)
        ensures
            match r {
                Some(i) => self.resolve(key@) == Some(i as int) && i < self.devices().len(),
                None => self.resolve(key@) is None,
            },
    {
        let ghost ids = info_ids(self.devices());
        let ghost aliases = info_aliases(self.devices());
        proof {
            self.lemma_indexes_in_bounds(key@);
        }
        if let Some(i) = self.position_of(key) {
            return Some(i);
        }
        let n = self.config.devices.len();
        for i in 0..n
            invariant
                n == self.devices().len(),
                ids == info_ids(self.devices()),
                aliases == info_aliases(self.devices()),
                first_id(ids, key@, n as int) is None,
                first_alias(aliases, key@, i as int) is None,
        {
            let hit = match &self.config.devices[i].alias {
                Some(a) => same_text(a.as_str(), key),
                None => false,
            };
            if hit {
                assert(aliases[i as int] == Some(key@));
                proof {
                    lemma_first_alias_stable(aliases, key@, i + 1, n as int);
                }
                return Some(i);
            }
        }
        let mut count: usize = 0;
        let mut last: usize = 0;
        for i in 0..n
            invariant
                n == self.devices().len(),
                ids == info_ids(self.devices()),
                aliases == info_aliases(self.devices()),
                first_id(ids, key@, n as int) is None,
                first_alias(aliases, key@, n as int) is None,
                count == prefix_count(ids, key@, i as int),
                count <= i,
                count > 0 ==> last == last_prefix(ids, key@, i as int),
        {
            if starts_with(self.config.devices[i].device_id.as_str(), key) {
                assert(is_prefix(key@, ids[i as int]));
                count = count + 1;
                last = i;
            }
        }
        if count == 1 {
            Some(last)
        } else {
            None
        }
    }

    /// Find device by exact id, then alias, then unique id prefix.
    pub fn find_device(&self, id_or_alias: &str) -> (r: Option<DeviceInfo>)
        ensures
            match self.resolve(id_or_alias@) {
                Some(i) => r == Some(self.devices()[i]),
                None => r is None,
            },
    {
        match self.resolve_position(id_or_alias) {
            Some(i) => Some(self.config.devices[i].snapshot()),
            None => None,
        }
    }

    /// Get device by exact id.
    pub fn get_device_by_id(&self, device_id: &str) -> (r: Option<DeviceInfo>)
        ensures
            match self.index_of(device_id@) {
                Some(i) => r == Some(self.devices()[i]),
                None => r is None,
            },
    {
        match self.position_of(device_id) {
            Some(i) => Some(self.config.devices[i].snapshot()),
            None => None,
        }
    }

    /// Check if a device exists.
    pub fn device_exists(&self, device_id: &str) -> (r: bool)
        ensures
            r == self.index_of(device_id@) is Some,
    {
        self.position_of(device_id).is_some()
    }

    /// Adds a device, or updates the name, platform, shell and last-seen time
    /// of the device with the same id (its alias, status and creation time
    /// are kept). A new device beyond `max_devices` is refused. The caller
    /// saves the file after a success.
    pub fn upsert_device(&mut self, device: DeviceInfo) -> (r: Result<(), StoreError>)
        ensures
            final(self).config_path == old(self).config_path,
            final(self).config.max_devices == old(self).config.max_devices,
            final(self).config.secret_key == old(self).config.secret_key,
            match old(self).index_of(device.device_id@) {
                Some(i) => r is Ok && final(self).devices() == upserted(old(self).devices(), device),
                None => if old(self).devices().len() >= old(self).config.max_devices {
                    r == Err::<(), StoreError>(StoreError::DeviceLimitReached) && final(self).devices() == old(self).devices()
                } else {
                    r is Ok && final(self).devices() == upserted(old(self).devices(), device)
                },
            },
    {
        match self.position_of(device.device_id.as_str()) {
            Some(i) => {
                let old_entry = self.config.devices[i].snapshot();
                let updated = DeviceInfo {
                    device_name: device.device_name,
                    platform: device.platform,
                    shell: device.shell,
                    last_seen: device.last_seen,
                    ..old_entry
                };
                self.config.devices.set(i, updated);
                Ok(())
            },
            None => {
                if self.config.devices.len() >= self.config.max_devices {
                    return Err(StoreError::DeviceLimitReached);
                }
                self.config.devices.push(device);
                Ok(())
            },
        }
    }

    /// Sets the last-seen time of the device with this id; gives whether
    /// there was such a device (and so whether the file must be saved).
    pub fn set_last_seen(&mut self, device_id: &str, now: UtcTime) -> (r: bool)
        ensures
            final(self).config_path == old(self).config_path,
            final(self).config.max_devices == old(self).config.max_devices,
            final(self).config.secret_key == old(self).config.secret_key,
            match old(self).index_of(device_id@) {
                Some(i) => r && final(self).devices() == old(self).devices().update(
                    i,
                    DeviceInfo { last_seen: now, ..old(self).devices()[i] },
                ),
                None => !r && final(self).devices() == old(self).devices(),
            },
    {
        match self.position_of(device_id) {
            Some(i) => {
                let old_entry = self.config.devices[i].snapshot();
                self.config.devices.set(i, DeviceInfo { last_seen: now, ..old_entry });
                true
            },
            None => false,
        }
    }

    /// Sets the last-seen time of the device with this id to now (the epoch
    /// when the clock cannot be read as an instant).
    pub fn update_last_seen(&mut self, device_id: &str) -> (r: bool)
        ensures
            final(self).config_path == old(self).config_path,
            final(self).config.max_devices == old(self).config.max_devices,
            final(self).config.secret_key == old(self).config.secret_key,
            match old(self).index_of(device_id@) {
                Some(i) => r && exists|t: UtcTime|
                    final(self).devices() == old(self).devices().update(
                        i,
                        #[trigger] with_last_seen(old(self).devices()[i], t),
                    ),
                None => !r && final(self).devices() == old(self).devices(),
            },
    {
        let now = utc_now_or_epoch();
        let r = self.set_last_seen(device_id, now);
        proof {
            if let Some(i) = old(self).index_of(device_id@) {
                assert(self.devices() == old(self).devices().update(
                    i,
                    with_last_seen(old(self).devices()[i], now),
                ));
            }
        }
        r
    }

    /// Get all devices.
    pub fn get_all_devices(&self) -> (r: Vec<DeviceInfo>)
        ensures
            r@ == self.devices(),
    {
        let mut out: Vec<DeviceInfo> = Vec::new();
        let n = self.config.devices.len();
        for i in 0..n
            invariant
                n == self.devices().len(),
                out@ == self.devices().take(i as int),
        {
            out.push(self.config.devices[i].snapshot());
            assert(out@ =~= self.devices().take(i + 1));
        }
        assert(self.devices().take(n as int) =~= self.devices());
        out
    }

    /// Check if device is approved.
    pub fn is_device_approved(&self, device_id: &str) -> (r: bool)
        ensures
            r == self.approved(device_id@),
    {
        match self.position_of(device_id) {
            Some(i) => self.config.devices[i].status == DeviceStatus::Approved,
            None => false,
        }
    }
}

} // verus!
