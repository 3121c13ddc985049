//! The limits that validation applies, and the slot that holds them for a
//! process.

use vstd::prelude::*;

verus! {

/// Limits applied when a path is validated.
#[derive(Debug, Clone, Copy, PartialEq, Eq, Structural)]
pub struct Config {
    /// Largest number of components a path may have.
    pub max_path_depth: usize,
    /// Largest number of symbolic links followed while resolving one path.
    pub max_symlink_depth: usize,
}

impl Default for Config {
    fn default() -> (config: Self)
        ensures
            config == Config::standard(),
    {
        Config { max_path_depth: 256, max_symlink_depth: 40 }
    }
}

impl Config {
    /// The limits in force where none were chosen: 256 components, 40 links.
    pub open spec fn standard() -> Config {
        Config { max_path_depth: 256, max_symlink_depth: 40 }
    }

    /// Creates a new configuration with default values.
    #[must_use]
    pub fn new() -> (config: Self)
        ensures
            config == Config::standard(),
    {
        Config { max_path_depth: 256, max_symlink_depth: 40 }
    }

    /// Sets the maximum path depth.
    #[must_use]
    pub fn with_max_path_depth(self, depth: usize) -> (config: Self)
        ensures
            config == (Config { max_path_depth: depth, ..self }),
    {
        Config { max_path_depth: depth, max_symlink_depth: self.max_symlink_depth }
    }

    /// Sets the maximum symlink depth.
    #[must_use]
    pub fn with_max_symlink_depth(self, depth: usize) -> (config: Self)
        ensures
            config == (Config { max_symlink_depth: depth, ..self }),
    {
        Config { max_path_depth: self.max_path_depth, max_symlink_depth: depth }
    }
}

/// The place where a process keeps its configuration: empty until the
/// first write or the first read, and never changed after that.
#[derive(Debug, Clone, Copy, PartialEq, Eq, Structural)]
pub struct ConfigSlot {
    pub value: Option<Config>,
}

impl ConfigSlot {
    /// An empty slot.
    pub fn new() -> (slot: Self)
        ensures
            slot.value is None,
    {
        ConfigSlot { value: None }
    }

    /// What a read of the slot yields: the stored limits, or the standard
    /// ones where nothing is stored.
    pub open spec fn effective(self) -> Config {
        match self.value {
            Some(config) => config,
            None => Config::standard(),
        }
    }

    /// The slot after a write of `config`: an empty slot takes it, a full
    /// one keeps what it has.
    pub open spec fn written(self, config: Config) -> ConfigSlot {
        match self.value {
            Some(_) => self,
            None => ConfigSlot { value: Some(config) },
        }
    }

    /// The slot after a read: it holds what the read yielded.
    pub open spec fn read(self) -> ConfigSlot {
        ConfigSlot { value: Some(self.effective()) }
    }
}

/// Stores `config` in an empty slot. A slot that already holds limits keeps
/// them: the first writer wins, and no error is raised.
pub fn set_config(slot: &mut ConfigSlot, config: Config)
    ensures
        *final(slot) == old(slot).written(config),
{
    if slot.value.is_none() {
        slot.value = Some(config);
    }
}

/// Reads the limits, storing the standard ones first where the slot is
/// empty, so that a later write changes nothing.
pub fn get_config(slot: &mut ConfigSlot) -> (config: Config)
    ensures
        config == old(slot).effective(),
        *final(slot) == old(slot).read(),
{
    match slot.value {
        Some(config) => config,
        None => {
            let config = Config::new();
            slot.value = Some(config);
            config
        },
    }
}

/// The first write to an empty slot is what every later read yields.
pub proof fn lemma_first_write_wins(first: Config, later: Config)
    ensures
        (ConfigSlot { value: None }).written(first).effective() == first,
        (ConfigSlot { value: None }).written(first).written(later) == (ConfigSlot {
            value: None,
        }).written(first),
{
}

/// Once a slot was written or read, no write changes it, and a read
/// changes neither the slot nor what it yields.
pub proof fn lemma_slot_is_set_once(slot: ConfigSlot, before: Config, later: Config)
    ensures
        slot.written(before).written(later) == slot.written(before),
        slot.read().written(later) == slot.read(),
        slot.read().read() == slot.read(),
        slot.read().effective() == slot.effective(),
        slot.written(before).read() == slot.written(before),
{
}

/// A slot that was never written yields the standard limits: 256
/// components, 40 links.
pub proof fn lemma_unset_slot_yields_standard()
    ensures
        (ConfigSlot { value: None }).effective() == Config::standard(),
        Config::standard().max_path_depth == 256,
        Config::standard().max_symlink_depth == 40,
{
}

} // verus!
