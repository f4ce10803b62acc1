//! The store of configured engines: their records, saved options, favorite
//! and built-in flags, and the rules that keep them consistent.
use vstd::prelude::*;
use crate::engine_validator::{
    copy_metadata, metadata_view, opt_view, EngineMetadata, MetadataRecord,
};
use crate::option_map::OptionMap;
use crate::text::{
    contains, copy_opt, has_infix, lines, split_lines, str_eq, trim, trimmed, views,
};

verus! {

/// Why a change to the store was refused.
#[derive(Debug, Clone, Copy, PartialEq, Eq, Structural)]
pub enum StorageError {
    /// An engine with the same executable path is already configured.
    DuplicatePath,
    /// No engine has the given id.
    NotFound,
    /// The built-in engine cannot be removed.
    BuiltinProtected,
}

/// A configured engine.
#[derive(Debug, Clone)]
pub struct EngineConfig {
    pub id: String,
    pub name: String,
    pub display_name: String,
    pub path: String,
    pub metadata: Option<EngineMetadata>,
    pub is_builtin: bool,
    pub enabled: bool,
    pub last_used: Option<String>,
    pub created_at: String,
    pub saved_options: Option<OptionMap>,
    pub is_favorite: bool,
}

/// `EngineConfig` over mathematical values.
pub struct ConfigRecord {
    pub id: Seq<char>,
    pub name: Seq<char>,
    pub display_name: Seq<char>,
    pub path: Seq<char>,
    pub metadata: Option<MetadataRecord>,
    pub is_builtin: bool,
    pub enabled: bool,
    pub last_used: Option<Seq<char>>,
    pub created_at: Seq<char>,
    pub saved_options: Option<Seq<(Seq<char>, Seq<char>)>>,
    pub is_favorite: bool,
}

pub open spec fn options_view(o: Option<OptionMap>) -> Option<Seq<(Seq<char>, Seq<char>)>> {
    match o {
        Some(m) => Some(m@),
        None => None,
    }
}

impl View for EngineConfig {
    type V = ConfigRecord;

    open spec fn view(&self) -> ConfigRecord {
        ConfigRecord {
            id: self.id@,
            name: self.name@,
            display_name: self.display_name@,
            path: self.path@,
            metadata: metadata_view(self.metadata),
            is_builtin: self.is_builtin,
            enabled: self.enabled,
            last_used: opt_view(self.last_used),
            created_at: self.created_at@,
            saved_options: options_view(self.saved_options),
            is_favorite: self.is_favorite,
        }
    }
}

pub open spec fn config_views(v: Seq<EngineConfig>) -> Seq<ConfigRecord> {
    v.map_values(|c: EngineConfig| c@)
}

/// The record of a newly configured engine.
pub open spec fn fresh_record(
    id: Seq<char>,
    created_at: Seq<char>,
    name: Seq<char>,
    path: Seq<char>,
    metadata: Option<MetadataRecord>,
    is_builtin: bool,
) -> ConfigRecord {
    ConfigRecord {
        id: id,
        name: name,
        display_name: name,
        path: path,
        metadata: metadata,
        is_builtin: is_builtin,
        enabled: true,
        last_used: None,
        created_at: created_at,
        saved_options: None,
        is_favorite: false,
    }
}

/// The display name that a record read without one receives.
pub fn default_display_name() -> (r: String)
    ensures
        r@ == Seq::<char>::empty(),
{
    String::new()
}

/// The favorite flag that a record read without one receives.
pub fn default_is_favorite() -> (r: bool)
    ensures
        r == false,
{
    false
}

/// Relies on `uuid::Uuid::new_v4` and its `Display`: a random identifier.
#[verifier::external_body]
fn fresh_id() -> String {
    uuid::Uuid::new_v4().to_string()
}

/// Relies on `chrono::Utc::now` and `DateTime::to_rfc3339`: the current time.
#[verifier::external_body]
fn now_rfc3339() -> String {
    chrono::Utc::now().to_rfc3339()
}

impl EngineConfig {
    /// A new, enabled record with the given identity.
    pub fn with_identity(
        id: String,
        created_at: String,
        name: String,
        path: String,
        metadata: Option<EngineMetadata>,
        is_builtin: bool,
    ) -> (r: EngineConfig)
        ensures
            r@ == fresh_record(id@, created_at@, name@, path@, metadata_view(metadata), is_builtin),
    {
        EngineConfig {
            id,
            display_name: name.clone(),
            name,
            path,
            metadata,
            is_builtin,
            enabled: true,
            last_used: None,
            created_at,
            saved_options: None,
            is_favorite: false,
        }
    }

    /// A new, enabled record with a random id, created now.
    pub fn new(name: String, path: String, metadata: Option<EngineMetadata>, is_builtin: bool) -> (r:
        EngineConfig)
        ensures
            r@ == fresh_record(r.id@, r.created_at@, name@, path@, metadata_view(metadata), is_builtin),
    {
        let id = fresh_id();
        let created_at = now_rfc3339();
        EngineConfig::with_identity(id, created_at, name, path, metadata, is_builtin)
    }

    /// A copy of the record.
    pub fn duplicate(&self) -> (r: EngineConfig)
        ensures
            r@ == self@,
    {
        EngineConfig {
            id: self.id.clone(),
            name: self.name.clone(),
            display_name: self.display_name.clone(),
            path: self.path.clone(),
            metadata: copy_metadata(&self.metadata),
            is_builtin: self.is_builtin,
            enabled: self.enabled,
            last_used: copy_opt(&self.last_used),
            created_at: self.created_at.clone(),
            saved_options: match &self.saved_options {
                Some(m) => Some(m.duplicate()),
                None => None,
            },
            is_favorite: self.is_favorite,
        }
    }
}

/// All configured engines.
#[derive(Debug, Clone)]
pub struct EngineStorage {
    pub version: String,
    pub engines: Vec<EngineConfig>,
}

/// `EngineStorage` over mathematical values.
pub struct StorageRecord {
    pub version: Seq<char>,
    pub engines: Seq<ConfigRecord>,
}

impl View for EngineStorage {
    type V = StorageRecord;

    open spec fn view(&self) -> StorageRecord {
        StorageRecord { version: self.version@, engines: config_views(self.engines@) }
    }
}

/// Index of the first record with id `id` at or after `i`, or the length.
pub open spec fn id_index_from(s: Seq<ConfigRecord>, id: Seq<char>, i: int) -> int
    decreases s.len() - i,
{
    if i < 0 || i >= s.len() {
        s.len() as int
    } else if s[i].id == id {
        i
    } else {
        id_index_from(s, id, i + 1)
    }
}

/// Index of the first record with id `id`, or the length when there is none.
pub open spec fn id_index(s: Seq<ConfigRecord>, id: Seq<char>) -> int {
    id_index_from(s, id, 0)
}

pub proof fn lemma_id_index_from(s: Seq<ConfigRecord>, id: Seq<char>, i: int)
    requires
        0 <= i <= s.len(),
    ensures
        i <= id_index_from(s, id, i) <= s.len(),
        id_index_from(s, id, i) < s.len() ==> s[id_index_from(s, id, i)].id == id,
        forall|j: int| i <= j < id_index_from(s, id, i) ==> s[j].id != id,
    decreases s.len() - i,
{
    if i < s.len() && s[i].id != id {
        lemma_id_index_from(s, id, i + 1);
    }
}

pub proof fn lemma_id_index(s: Seq<ConfigRecord>, id: Seq<char>)
    ensures
        0 <= id_index(s, id) <= s.len(),
        id_index(s, id) < s.len() ==> s[id_index(s, id)].id == id,
        forall|j: int| 0 <= j < id_index(s, id) ==> s[j].id != id,
{
    lemma_id_index_from(s, id, 0);
}

/// Index of the first built-in record at or after `i`, or the length.
pub open spec fn builtin_index_from(s: Seq<ConfigRecord>, i: int) -> int
    decreases s.len() - i,
{
    if i < 0 || i >= s.len() {
        s.len() as int
    } else if s[i].is_builtin {
        i
    } else {
        builtin_index_from(s, i + 1)
    }
}

/// Index of the first built-in record, or the length when there is none.
pub open spec fn builtin_index(s: Seq<ConfigRecord>) -> int {
    builtin_index_from(s, 0)
}

pub proof fn lemma_builtin_index_from(s: Seq<ConfigRecord>, i: int)
    requires
        0 <= i <= s.len(),
    ensures
        i <= builtin_index_from(s, i) <= s.len(),
        builtin_index_from(s, i) < s.len() ==> s[builtin_index_from(s, i)].is_builtin,
        forall|j: int| i <= j < builtin_index_from(s, i) ==> !s[j].is_builtin,
    decreases s.len() - i,
{
    if i < s.len() && !s[i].is_builtin {
        lemma_builtin_index_from(s, i + 1);
    }
}

impl EngineStorage {
    /// Position of the first engine with id `engine_id`, or the number of engines.
    pub fn index_of(&self, engine_id: &str) -> (r: usize)
        ensures
            r == id_index(self@.engines, engine_id@),
    {
        let ghost s = self@.engines;
        let mut i: usize = 0;
        while i < self.engines.len()
            invariant
                s == self@.engines,
                i <= s.len(),
                s.len() == self.engines@.len(),
                id_index(s, engine_id@) == id_index_from(s, engine_id@, i as int),
            decreases s.len() - i,
        {
            assert(s[i as int] == self.engines@[i as int]@);
            if str_eq(self.engines[i].id.as_str(), engine_id) {
                return i;
            }
            i = i + 1;
        }
        i
    }

    /// Adds `config` unless an engine with the same path is configured;
    /// returns its id.
    pub fn add_engine(&mut self, config: EngineConfig) -> (r: Result<String, StorageError>)
        ensures
            (exists|i: int|
                0 <= i < old(self)@.engines.len() && #[trigger] old(self)@.engines[i].path
                    == config.path@) ==> r == Err::<String, StorageError>(
                StorageError::DuplicatePath,
            ) && final(self)@ == old(self)@,
            !(exists|i: int|
                0 <= i < old(self)@.engines.len() && #[trigger] old(self)@.engines[i].path
                    == config.path@) ==> (r matches Ok(id) && id@ == config.id@) && final(self)@
                == (StorageRecord {
                engines: old(self)@.engines.push(config@),
                ..old(self)@
            }),
    {
        let mut i: usize = 0;
        while i < self.engines.len()
            invariant
                i <= self.engines@.len(),
                *self == *old(self),
                forall|j: int| 0 <= j < i ==> self@.engines[j].path != config.path@,
            decreases self.engines@.len() - i,
        {
            assert(self@.engines[i as int] == self.engines@[i as int]@);
            if str_eq(self.engines[i].path.as_str(), config.path.as_str()) {
                assert(old(self)@.engines[i as int].path == config.path@);
                return Err(StorageError::DuplicatePath);
            }
            i = i + 1;
        }
        let id = config.id.clone();
        self.engines.push(config);
        assert(self@.engines =~= old(self)@.engines.push(config@));
        Ok(id)
    }

    /// The first engine with id `engine_id`.
    pub fn get_engine(&self, engine_id: &str) -> (r: Option<&EngineConfig>)
        ensures
            match r {
                Some(c) => id_index(self@.engines, engine_id@) < self@.engines.len() && *c
                    == self.engines@[id_index(self@.engines, engine_id@)],
                None => id_index(self@.engines, engine_id@) == self@.engines.len(),
            },
    {
        proof {
            lemma_id_index(self@.engines, engine_id@);
        }
        let i = self.index_of(engine_id);
        if i < self.engines.len() {
            Some(&self.engines[i])
        } else {
            None
        }
    }

    /// Whether a built-in engine is configured.
    pub fn has_builtin_engine(&self) -> (r: bool)
        ensures
            r == exists|i: int| 0 <= i < self@.engines.len() && #[trigger] self@.engines[i].is_builtin,
    {
        let mut i: usize = 0;
        while i < self.engines.len()
            invariant
                i <= self.engines@.len(),
                forall|j: int| 0 <= j < i ==> !self@.engines[j].is_builtin,
            decreases self.engines@.len() - i,
        {
            assert(self@.engines[i as int] == self.engines@[i as int]@);
            if self.engines[i].is_builtin {
                assert(self@.engines[i as int].is_builtin);
                return true;
            }
            i = i + 1;
        }
        false
    }

    /// All configured engines, in the order in which they were added.
    pub fn get_all_engines(&self) -> (r: &[EngineConfig])
        ensures
            r@ == self.engines@,
    {
        self.engines.as_slice()
    }

    /// Enables or disables the first engine with id `engine_id`.
    pub fn set_engine_enabled(&mut self, engine_id: &str, enabled: bool) -> (r: Result<
        (),
        StorageError,
    >)
        ensures
            ({
                let i = id_index(old(self)@.engines, engine_id@);
                if i < old(self)@.engines.len() {
                    r is Ok && final(self)@ == StorageRecord {
                        engines: old(self)@.engines.update(
                            i,
                            ConfigRecord { enabled: enabled, ..old(self)@.engines[i] },
                        ),
                        ..old(self)@
                    }
                } else {
                    r == Err::<(), StorageError>(StorageError::NotFound) && final(self)@ == old(
                        self,
                    )@
                }
            }),
    {
        proof {
            lemma_id_index(self@.engines, engine_id@);
        }
        let i = self.index_of(engine_id);
        if i >= self.engines.len() {
            return Err(StorageError::NotFound);
        }
        self.engines[i].enabled = enabled;
        assert(self@.engines =~= old(self)@.engines.update(
            i as int,
            ConfigRecord { enabled: enabled, ..old(self)@.engines[i as int] },
        ));
        Ok(())
    }

    /// The first engine with id `engine_id`, for changing it in place.
    pub fn get_engine_mut(&mut self, engine_id: &str) -> (r: Option<&mut EngineConfig>)
        ensures
            ({
                let i = id_index(old(self)@.engines, engine_id@);
                if i < old(self)@.engines.len() {
                    &&& r is Some
                    &&& *r->0 == old(self).engines@[i]
                    &&& final(self).engines@ == old(self).engines@.update(i, *final(r->0))
                    &&& final(self).version == old(self).version
                } else {
                    r is None && *final(self) == *old(self)
                }
            }),
    {
        proof {
            lemma_id_index(self@.engines, engine_id@);
        }
        let i = self.index_of(engine_id);
        if i < self.engines.len() {
            Some(&mut self.engines[i])
        } else {
            None
        }
    }

    /// Removes every engine with id `engine_id`; fails when there is none.
    pub fn remove_engine(&mut self, engine_id: &str) -> (r: Result<(), StorageError>)
        ensures
            final(self)@ == (StorageRecord {
                engines: old(self)@.engines.filter(|c: ConfigRecord| c.id != engine_id@),
                ..old(self)@
            }),
            r is Err <==> id_index(old(self)@.engines, engine_id@) == old(self)@.engines.len(),
            r is Err ==> r == Err::<(), StorageError>(StorageError::NotFound),
    {
        let ghost pred = |c: ConfigRecord| c.id != engine_id@;
        let ghost s = old(self)@.engines;
        proof {
            lemma_id_index(s, engine_id@);
        }
        let mut kept: Vec<EngineConfig> = Vec::new();
        let mut removed = false;
        let mut old_engines: Vec<EngineConfig> = Vec::new();
        core::mem::swap(&mut old_engines, &mut self.engines);
        let mut i: usize = 0;
        assert(s.subrange(0, 0) =~= Seq::<ConfigRecord>::empty());
        while i < old_engines.len()
            invariant
                s == config_views(old_engines@),
                pred == (|c: ConfigRecord| c.id != engine_id@),
                i <= old_engines@.len(),
                config_views(kept@) == s.subrange(0, i as int).filter(pred),
                removed <==> exists|j: int| 0 <= j < i && #[trigger] s[j].id == engine_id@,
            decreases old_engines@.len() - i,
        {
            let c = old_engines[i].duplicate();
            let ghost before = kept@;
            proof {
                reveal(Seq::filter);
                assert(s.subrange(0, i + 1).drop_last() =~= s.subrange(0, i as int));
                assert(s[i as int] == old_engines@[i as int]@);
                assert(s.subrange(0, i + 1).last() == s[i as int]);
                assert(pred(s[i as int]) == (s[i as int].id != engine_id@));
                assert(s.subrange(0, i + 1).filter(pred) == (if pred(s[i as int]) {
                    s.subrange(0, i as int).filter(pred).push(s[i as int])
                } else {
                    s.subrange(0, i as int).filter(pred)
                }));
            }
            if str_eq(c.id.as_str(), engine_id) {
                assert(s[i as int].id == engine_id@);
                removed = true;
            } else {
                kept.push(c);
                assert(config_views(before.push(c)) =~= config_views(before).push(c@));
            }
            i = i + 1;
        }
        assert(s.subrange(0, old_engines@.len() as int) =~= s);
        self.engines = kept;
        proof {
            if removed {
                let j = choose|j: int| 0 <= j < old_engines@.len() && #[trigger] s[j].id
                    == engine_id@;
                assert(id_index(s, engine_id@) <= j);
            } else {
                if id_index(s, engine_id@) < s.len() {
                    assert(s[id_index(s, engine_id@)].id == engine_id@);
                }
            }
        }
        if removed {
            Ok(())
        } else {
            Err(StorageError::NotFound)
        }
    }

    /// Saves the options of the first engine with id `engine_id`.
    pub fn save_engine_options(&mut self, engine_id: &str, options: OptionMap) -> (r: Result<(), StorageError>)
        ensures
            ({
                let i = id_index(old(self)@.engines, engine_id@);
                if i < old(self)@.engines.len() {
                    r is Ok && final(self)@ == StorageRecord {
                        engines: old(self)@.engines.update(
                            i,
                            ConfigRecord { saved_options: Some(options@), ..old(self)@.engines[i] },
                        ),
                        ..old(self)@
                    }
                } else {
                    r == Err::<(), StorageError>(StorageError::NotFound) && final(self)@ == old(
                        self,
                    )@
                }
            }),
    {
        proof {
            lemma_id_index(self@.engines, engine_id@);
        }
        let i = self.index_of(engine_id);
        if i >= self.engines.len() {
            return Err(StorageError::NotFound);
        }
        self.engines[i].saved_options = Some(options);
        assert(self@.engines =~= old(self)@.engines.update(
            i as int,
            ConfigRecord { saved_options: Some(options@), ..old(self)@.engines[i as int] },
        ));
        Ok(())
    }

    /// Renames the first engine with id `engine_id` for display.
    pub fn update_display_name(&mut self, engine_id: &str, new_display_name: String) -> (r: Result<(), StorageError>)
        ensures
            ({
                let i = id_index(old(self)@.engines, engine_id@);
                if i < old(self)@.engines.len() {
                    r is Ok && final(self)@ == StorageRecord {
                        engines: old(self)@.engines.update(
                            i,
                            ConfigRecord { display_name: new_display_name@, ..old(self)@.engines[i] },
                        ),
                        ..old(self)@
                    }
                } else {
                    r == Err::<(), StorageError>(StorageError::NotFound) && final(self)@ == old(
                        self,
                    )@
                }
            }),
    {
        proof {
            lemma_id_index(self@.engines, engine_id@);
        }
        let i = self.index_of(engine_id);
        if i >= self.engines.len() {
            return Err(StorageError::NotFound);
        }
        self.engines[i].display_name = new_display_name;
        assert(self@.engines =~= old(self)@.engines.update(
            i as int,
            ConfigRecord { display_name: new_display_name@, ..old(self)@.engines[i as int] },
        ));
        Ok(())
    }

    /// Records `timestamp` as the last use of the first engine with id `engine_id`.
    pub fn set_last_used(&mut self, engine_id: &str, timestamp: String) -> (r: Result<(), StorageError>)
        ensures
            ({
                let i = id_index(old(self)@.engines, engine_id@);
                if i < old(self)@.engines.len() {
                    r is Ok && final(self)@ == StorageRecord {
                        engines: old(self)@.engines.update(
                            i,
                            ConfigRecord { last_used: Some(timestamp@), ..old(self)@.engines[i] },
                        ),
                        ..old(self)@
                    }
                } else {
                    r == Err::<(), StorageError>(StorageError::NotFound) && final(self)@ == old(
                        self,
                    )@
                }
            }),
    {
        proof {
            lemma_id_index(self@.engines, engine_id@);
        }
        let i = self.index_of(engine_id);
        if i >= self.engines.len() {
            return Err(StorageError::NotFound);
        }
        self.engines[i].last_used = Some(timestamp);
        assert(self@.engines =~= old(self)@.engines.update(
            i as int,
            ConfigRecord { last_used: Some(timestamp@), ..old(self)@.engines[i as int] },
        ));
        Ok(())
    }

    /// Records the current time as the last use of the first engine with id
    /// `engine_id`.
    pub fn update_last_used(&mut self, engine_id: &str) -> (r: Result<(), StorageError>)
        ensures
            ({
                let i = id_index(old(self)@.engines, engine_id@);
                if i < old(self)@.engines.len() {
                    &&& r is Ok
                    &&& final(self)@.version == old(self)@.version
                    &&& final(self)@.engines.len() == old(self)@.engines.len()
                    &&& final(self)@.engines[i] == ConfigRecord {
                        last_used: final(self)@.engines[i].last_used,
                        ..old(self)@.engines[i]
                    }
                    &&& final(self)@.engines[i].last_used is Some
                    &&& forall|j: int|
                        0 <= j < old(self)@.engines.len() && j != i ==> final(self)@.engines[j]
                            == old(self)@.engines[j]
                } else {
                    r == Err::<(), StorageError>(StorageError::NotFound) && final(self)@ == old(
                        self,
                    )@
                }
            }),
    {
        proof {
            lemma_id_index(self@.engines, engine_id@);
        }
        let now = now_rfc3339();
        self.set_last_used(engine_id, now)
    }

    /// The saved options of the first engine with id `engine_id`.
    pub fn get_engine_options(&self, engine_id: &str) -> (r: Option<&OptionMap>)
        ensures
            ({
                let i = id_index(self@.engines, engine_id@);
                match r {
                    Some(m) => i < self@.engines.len() && self@.engines[i].saved_options == Some(
                        m@,
                    ),
                    None => !(i < self@.engines.len() && self@.engines[i].saved_options is Some),
                }
            }),
    {
        proof {
            lemma_id_index(self@.engines, engine_id@);
        }
        match self.get_engine(engine_id) {
            Some(c) => {
                assert(self@.engines[id_index(self@.engines, engine_id@)] == c@);
                match &c.saved_options {
                    Some(m) => Some(m),
                    None => None,
                }
            },
            None => None,
        }
    }

    /// Makes the first engine with id `engine_id` the only favorite.
    pub fn set_favorite_engine(&mut self, engine_id: &str) -> (r: Result<(), StorageError>)
        ensures
            ({
                let i = id_index(old(self)@.engines, engine_id@);
                if i < old(self)@.engines.len() {
                    &&& r is Ok
                    &&& final(self)@.version == old(self)@.version
                    &&& final(self)@.engines.len() == old(self)@.engines.len()
                    &&& forall|j: int|
                        0 <= j < old(self)@.engines.len() ==> #[trigger] final(self)@.engines[j]
                            == (ConfigRecord { is_favorite: j == i, ..old(self)@.engines[j] })
                } else {
                    r == Err::<(), StorageError>(StorageError::NotFound) && final(self)@ == old(
                        self,
                    )@
                }
            }),
    {
        proof {
            lemma_id_index(self@.engines, engine_id@);
        }
        let k = self.index_of(engine_id);
        if k >= self.engines.len() {
            return Err(StorageError::NotFound);
        }
        let mut j: usize = 0;
        while j < self.engines.len()
            invariant
                j <= self.engines@.len(),
                self.engines@.len() == old(self).engines@.len(),
                self.version == old(self).version,
                forall|m: int|
                    0 <= m < j ==> #[trigger] self@.engines[m] == (ConfigRecord {
                        is_favorite: false,
                        ..old(self)@.engines[m]
                    }),
                forall|m: int| j <= m < self.engines@.len() ==> #[trigger] self@.engines[m] == old(
                    self,
                )@.engines[m],
            decreases self.engines@.len() - j,
        {
            let ghost prev = self@.engines;
            self.engines[j].is_favorite = false;
            assert(self@.engines =~= prev.update(
                j as int,
                ConfigRecord { is_favorite: false, ..prev[j as int] },
            ));
            j = j + 1;
        }
        let ghost prev = self@.engines;
        self.engines[k].is_favorite = true;
        assert(self@.engines =~= prev.update(
            k as int,
            ConfigRecord { is_favorite: true, ..prev[k as int] },
        ));
        Ok(())
    }

    /// Adds a copy of the first engine with id `engine_id` under the id
    /// `new_id` and the display name `new_display_name`, created at
    /// `created_at`, never used and not built in; returns the new id.
    pub fn clone_engine_as(
        &mut self,
        engine_id: &str,
        new_display_name: String,
        new_id: String,
        created_at: String,
    ) -> (r: Result<String, StorageError>)
        ensures
            ({
                let i = id_index(old(self)@.engines, engine_id@);
                if i < old(self)@.engines.len() {
                    &&& r matches Ok(id) && id@ == new_id@
                    &&& final(self)@ == StorageRecord {
                        engines: old(self)@.engines.push(
                            ConfigRecord {
                                id: new_id@,
                                display_name: new_display_name@,
                                is_builtin: false,
                                created_at: created_at@,
                                last_used: None,
                                ..old(self)@.engines[i]
                            },
                        ),
                        ..old(self)@
                    }
                } else {
                    r == Err::<String, StorageError>(StorageError::NotFound) && final(self)@
                        == old(self)@
                }
            }),
    {
        proof {
            lemma_id_index(self@.engines, engine_id@);
        }
        let i = self.index_of(engine_id);
        if i >= self.engines.len() {
            return Err(StorageError::NotFound);
        }
        let mut copy = self.engines[i].duplicate();
        copy.id = new_id;
        copy.display_name = new_display_name;
        copy.is_builtin = false;
        copy.created_at = created_at;
        copy.last_used = None;
        let id = copy.id.clone();
        let ghost c = copy@;
        self.engines.push(copy);
        assert(self@.engines =~= old(self)@.engines.push(c));
        Ok(id)
    }

    /// Adds a copy of the first engine with id `engine_id` under a fresh id and
    /// the display name `new_display_name`; returns the new id.
    pub fn clone_engine(&mut self, engine_id: &str, new_display_name: String) -> (r: Result<
        String,
        StorageError,
    >)
        ensures
            ({
                let i = id_index(old(self)@.engines, engine_id@);
                if i < old(self)@.engines.len() {
                    &&& r matches Ok(id) && final(self)@ == StorageRecord {
                        engines: old(self)@.engines.push(
                            ConfigRecord {
                                id: id@,
                                display_name: new_display_name@,
                                is_builtin: false,
                                created_at: final(self)@.engines.last().created_at,
                                last_used: None,
                                ..old(self)@.engines[i]
                            },
                        ),
                        ..old(self)@
                    }
                } else {
                    r == Err::<String, StorageError>(StorageError::NotFound) && final(self)@
                        == old(self)@
                }
            }),
    {
        let new_id = fresh_id();
        let created_at = now_rfc3339();
        self.clone_engine_as(engine_id, new_display_name, new_id, created_at)
    }

    /// Removes the engine with id `engine_id` unless it is the built-in one.
    pub fn remove_configured_engine(&mut self, engine_id: &str) -> (r: Result<(), StorageError>)
        ensures
            ({
                let i = id_index(old(self)@.engines, engine_id@);
                if i < old(self)@.engines.len() && old(self)@.engines[i].is_builtin {
                    r == Err::<(), StorageError>(StorageError::BuiltinProtected) && final(self)@
                        == old(self)@
                } else {
                    &&& final(self)@ == (StorageRecord {
                        engines: old(self)@.engines.filter(|c: ConfigRecord| c.id != engine_id@),
                        ..old(self)@
                    })
                    &&& (r is Err <==> i == old(self)@.engines.len())
                    &&& (r is Err ==> r == Err::<(), StorageError>(StorageError::NotFound))
                }
            }),
    {
        proof {
            lemma_id_index(self@.engines, engine_id@);
        }
        let i = self.index_of(engine_id);
        if i < self.engines.len() && self.engines[i].is_builtin {
            assert(self@.engines[i as int] == self.engines@[i as int]@);
            return Err(StorageError::BuiltinProtected);
        }
        proof {
            if i < self.engines@.len() {
                assert(self@.engines[i as int] == self.engines@[i as int]@);
            }
        }
        self.remove_engine(engine_id)
    }

    /// Fills in missing display names and chooses a favorite when none is
    /// set; returns whether anything was to be changed.
    pub fn migrate(&mut self) -> (r: bool)
        ensures
            final(self)@ == (StorageRecord { engines: migrated(old(self)@.engines), ..old(self)@ }),
            r == needs_migration(old(self)@.engines),
    {
        let ghost s = old(self)@.engines;
        let mut needs = false;
        let mut j: usize = 0;
        while j < self.engines.len()
            invariant
                j <= self.engines@.len(),
                s == old(self)@.engines,
                self.engines@.len() == s.len(),
                self.version == old(self).version,
                forall|m: int| 0 <= m < j ==> #[trigger] self@.engines[m] == with_display_name(s[m]),
                forall|m: int| j <= m < s.len() ==> #[trigger] self@.engines[m] == s[m],
                needs <==> exists|m: int| 0 <= m < j && (#[trigger] s[m]).display_name.len() == 0,
            decreases s.len() - j,
        {
            assert(self@.engines[j as int] == self.engines@[j as int]@);
            if self.engines[j].display_name.as_str().unicode_len() == 0 {
                let name = self.engines[j].name.clone();
                let ghost prev = self@.engines;
                self.engines[j].display_name = name;
                assert(self@.engines =~= prev.update(
                    j as int,
                    ConfigRecord { display_name: prev[j as int].name, ..prev[j as int] },
                ));
                needs = true;
            }
            j = j + 1;
        }
        let ghost filled = self@.engines;
        assert(filled =~= s.map_values(|c: ConfigRecord| with_display_name(c)));
        proof {
            lemma_favor_conditions(s);
        }
        let n = self.engines.len();
        if n == 1 && !self.engines[0].is_favorite {
            assert(self@.engines[0] == self.engines@[0]@);
            self.engines[0].is_favorite = true;
            assert(self@.engines =~= filled.update(
                0,
                ConfigRecord { is_favorite: true, ..filled[0] },
            ));
            assert(favor(filled) == self@.engines);
            needs = true;
        } else {
            assert(n == 1 ==> filled[0] == self.engines@[0]@);
            let mut any = false;
            let mut b: usize = n;
            let mut k: usize = 0;
            while k < n
                invariant
                    n == self.engines@.len(),
                    filled == self@.engines,
                    k <= n,
                    any <==> exists|m: int| 0 <= m < k && #[trigger] filled[m].is_favorite,
                    !(n == 1 && !filled[0].is_favorite),
                    b <= n,
                    b == n ==> builtin_index(filled) == builtin_index_from(filled, k as int),
                    b < n ==> b < k && b == builtin_index(filled),
                decreases n - k,
            {
                assert(filled[k as int] == self.engines@[k as int]@);
                if self.engines[k].is_favorite {
                    assert(filled[k as int].is_favorite);
                    any = true;
                }
                if b == n && self.engines[k].is_builtin {
                    b = k;
                }
                k = k + 1;
            }
            proof {
                lemma_builtin_index_from(filled, 0);
                if b == n {
                    assert(builtin_index(filled) == n);
                }
            }
            assert(any == any_favorite(filled));
            if !any && b < n {
                self.engines[b].is_favorite = true;
                assert(self@.engines =~= filled.update(
                    b as int,
                    ConfigRecord { is_favorite: true, ..filled[b as int] },
                ));
                assert(favor(filled) == self@.engines);
                needs = true;
            } else {
                assert(favor(filled) == self@.engines);
            }
        }
        needs
    }

    /// Points the built-in engine at `engine_path`, takes `metadata` when it
    /// is known (else keeps what was stored) and gives it the default options
    /// when it has none; returns the number of options it then declares, or
    /// nothing when no built-in engine is configured.
    pub fn refresh_builtin_engine(
        &mut self,
        engine_path: String,
        metadata: Option<EngineMetadata>,
    ) -> (r: Option<usize>)
        ensures
            ({
                let b = builtin_index(old(self)@.engines);
                if b < old(self)@.engines.len() {
                    let c = refreshed(old(self)@.engines[b], engine_path@, metadata_view(metadata));
                    &&& final(self)@ == StorageRecord {
                        engines: old(self)@.engines.update(b, c),
                        ..old(self)@
                    }
                    &&& r == Some(
                        match c.metadata {
                            Some(m) => m.options.len() as usize,
                            None => 0usize,
                        },
                    )
                } else {
                    r is None && final(self)@ == old(self)@
                }
            }),
    {
        let ghost s = old(self)@.engines;
        proof {
            lemma_builtin_index_from(s, 0);
        }
        let n = self.engines.len();
        let mut b: usize = 0;
        while b < n && !self.engines[b].is_builtin
            invariant
                n == self.engines@.len(),
                s == self@.engines,
                b <= n,
                builtin_index(s) == builtin_index_from(s, b as int),
            decreases n - b,
        {
            assert(s[b as int] == self.engines@[b as int]@);
            b = b + 1;
        }
        if b >= n {
            return None;
        }
        assert(s[b as int] == self.engines@[b as int]@);
        let defaults = builtin_default_options();
        let mut c = self.engines[b].duplicate();
        c.path = engine_path;
        if metadata.is_some() {
            c.metadata = metadata;
        }
        if c.saved_options.is_none() {
            c.saved_options = Some(defaults);
        }
        let count = match &c.metadata {
            Some(m) => m.options.len(),
            None => 0,
        };
        let ghost cv = c@;
        self.engines.set(b, c);
        assert(self@.engines =~= s.update(b as int, cv));
        Some(count)
    }
}

/// `c` with a display name, its name standing in for a missing one.
pub open spec fn with_display_name(c: ConfigRecord) -> ConfigRecord {
    if c.display_name.len() == 0 {
        ConfigRecord { display_name: c.name, ..c }
    } else {
        c
    }
}

pub open spec fn any_favorite(s: Seq<ConfigRecord>) -> bool {
    exists|i: int| 0 <= i < s.len() && #[trigger] s[i].is_favorite
}

/// A lone engine becomes the favorite; otherwise, when there is no favorite,
/// the first built-in engine does.
pub open spec fn favor(s: Seq<ConfigRecord>) -> Seq<ConfigRecord> {
    if s.len() == 1 && !s[0].is_favorite {
        s.update(0, ConfigRecord { is_favorite: true, ..s[0] })
    } else if !any_favorite(s) && builtin_index(s) < s.len() {
        s.update(builtin_index(s), ConfigRecord { is_favorite: true, ..s[builtin_index(s)] })
    } else {
        s
    }
}

/// Whether `favor` changes `s`.
pub open spec fn favor_applies(s: Seq<ConfigRecord>) -> bool {
    (s.len() == 1 && !s[0].is_favorite) || (!(s.len() == 1) && !any_favorite(s) && builtin_index(s)
        < s.len())
}

/// The records after the migration that loading applies.
pub open spec fn migrated(s: Seq<ConfigRecord>) -> Seq<ConfigRecord> {
    favor(s.map_values(|c: ConfigRecord| with_display_name(c)))
}

/// Whether the migration changes anything that must be saved.
pub open spec fn needs_migration(s: Seq<ConfigRecord>) -> bool {
    (exists|i: int| 0 <= i < s.len() && (#[trigger] s[i]).display_name.len() == 0) || favor_applies(s)
}

proof fn lemma_builtin_index_map(s: Seq<ConfigRecord>, t: Seq<ConfigRecord>, i: int)
    requires
        0 <= i <= s.len(),
        s.len() == t.len(),
        forall|j: int| 0 <= j < s.len() ==> s[j].is_builtin == t[j].is_builtin,
    ensures
        builtin_index_from(s, i) == builtin_index_from(t, i),
    decreases s.len() - i,
{
    if i < s.len() {
        lemma_builtin_index_map(s, t, i + 1);
    }
}

/// Filling in display names leaves the favorite rule as it was.
proof fn lemma_favor_conditions(s: Seq<ConfigRecord>)
    ensures
        ({
            let t = s.map_values(|c: ConfigRecord| with_display_name(c));
            &&& t.len() == s.len()
            &&& builtin_index(t) == builtin_index(s)
            &&& any_favorite(t) == any_favorite(s)
            &&& (s.len() == 1 ==> t[0].is_favorite == s[0].is_favorite)
        }),
{
    let t = s.map_values(|c: ConfigRecord| with_display_name(c));
    assert forall|j: int| 0 <= j < s.len() implies s[j].is_builtin == t[j].is_builtin
        && s[j].is_favorite == t[j].is_favorite by {}
    lemma_builtin_index_map(t, s, 0);
    if any_favorite(s) {
        let j = choose|j: int| 0 <= j < s.len() && #[trigger] s[j].is_favorite;
        assert(t[j].is_favorite);
    }
    if any_favorite(t) {
        let j = choose|j: int| 0 <= j < t.len() && #[trigger] t[j].is_favorite;
        assert(s[j].is_favorite);
    }
}

/// The built-in engine after `refresh_builtin_engine`.
pub open spec fn refreshed(
    c: ConfigRecord,
    path: Seq<char>,
    metadata: Option<MetadataRecord>,
) -> ConfigRecord {
    ConfigRecord {
        path: path,
        metadata: if metadata is Some { metadata } else { c.metadata },
        saved_options: if c.saved_options is None { Some(builtin_defaults()) } else { c.saved_options },
        ..c
    }
}

/// The options that the built-in engine starts with.
pub open spec fn builtin_defaults() -> Seq<(Seq<char>, Seq<char>)> {
    seq![
        ("MaxDepth"@, "0"@),
        ("TimeCheckFrequency"@, "1024"@),
        ("TimeSafetyMargin"@, "100"@),
        ("TimeAllocationStrategy"@, "Adaptive"@),
        ("EnableTimeBudget"@, "true"@),
        ("EnableCheckOptimization"@, "true"@),
        ("EnableAspirationWindows"@, "true"@),
        ("AspirationWindowSize"@, "25"@),
        ("EnablePositionTypeTracking"@, "true"@),
    ]
}

/// The options that the built-in engine starts with.
pub fn builtin_default_options() -> (r: OptionMap)
    ensures
        r@ == builtin_defaults(),
{
    let mut m = OptionMap::new();
    m.push_new(String::from_str("MaxDepth"), String::from_str("0"));
    m.push_new(String::from_str("TimeCheckFrequency"), String::from_str("1024"));
    m.push_new(String::from_str("TimeSafetyMargin"), String::from_str("100"));
    m.push_new(String::from_str("TimeAllocationStrategy"), String::from_str("Adaptive"));
    m.push_new(String::from_str("EnableTimeBudget"), String::from_str("true"));
    m.push_new(String::from_str("EnableCheckOptimization"), String::from_str("true"));
    m.push_new(String::from_str("EnableAspirationWindows"), String::from_str("true"));
    m.push_new(String::from_str("AspirationWindowSize"), String::from_str("25"));
    m.push_new(String::from_str("EnablePositionTypeTracking"), String::from_str("true"));
    assert(m@ =~= builtin_defaults());
    m
}

impl EngineConfig {
    /// A new record for the built-in engine at `engine_path`, with the
    /// default options.
    pub fn new_builtin(engine_path: String, metadata: Option<EngineMetadata>) -> (r: EngineConfig)
        ensures
            r@ == (ConfigRecord {
                saved_options: Some(builtin_defaults()),
                ..fresh_record(
                    r.id@,
                    r.created_at@,
                    "Built-in Engine"@,
                    engine_path@,
                    metadata_view(metadata),
                    true,
                )
            }),
    {
        let mut c = EngineConfig::new(String::from_str("Built-in Engine"), engine_path, metadata, true);
        c.saved_options = Some(builtin_default_options());
        c
    }
}

impl Default for EngineStorage {
    fn default() -> (r: EngineStorage)
        ensures
            r@.version == "1.0"@,
            r@.engines.len() == 0,
    {
        EngineStorage { version: String::from_str("1.0"), engines: Vec::new() }
    }
}

/// Whether a manifest line names the engine binary.
pub open spec fn names_engine_binary(line: Seq<char>) -> bool {
    has_infix(line, "name = \"usi-engine\""@) || has_infix(line, "name = 'usi-engine'"@)
}

/// Line `i` of `ls` opens a binary section that names the engine binary
/// within the next four lines.
pub open spec fn engine_bin_at(ls: Seq<Seq<char>>, i: int) -> bool {
    &&& trim(ls[i]) == "[[bin]]"@
    &&& exists|j: int| i < j < i + 5 && j < ls.len() && names_engine_binary(#[trigger] ls[j])
}

/// Whether a manifest declares the engine binary.
pub open spec fn declares_engine_binary_spec(contents: Seq<char>) -> bool {
    exists|i: int| 0 <= i < lines(contents).len() && #[trigger] engine_bin_at(lines(contents), i)
}

/// Whether the manifest text `contents` declares the engine binary: a line
/// `[[bin]]` followed within four lines by its name.
pub fn declares_engine_binary(contents: &str) -> (r: bool)
    ensures
        r == declares_engine_binary_spec(contents@),
{
    let ls = split_lines(contents);
    let ghost v = views(ls@);
    let n = ls.len();
    let mut i: usize = 0;
    while i < n
        invariant
            v == views(ls@),
            v == lines(contents@),
            n == v.len(),
            i <= n,
            forall|k: int| 0 <= k < i ==> !#[trigger] engine_bin_at(v, k),
        decreases n - i,
    {
        assert(v[i as int] == ls@[i as int]@);
        let header = trimmed(ls[i].as_str());
        if str_eq(header.as_str(), "[[bin]]") {
            let end = if n - i > 5 { i + 5 } else { n };
            let mut j: usize = i + 1;
            while j < end
                invariant
                    v == views(ls@),
                    v == lines(contents@),
                    n == v.len(),
                    i < n,
                    trim(v[i as int]) == "[[bin]]"@,
                    i + 1 <= j,
                    end <= n,
                    end <= i + 5,
                    end == n || end == i + 5,
                    forall|m: int| i < m < j && m < end ==> !names_engine_binary(#[trigger] v[m]),
                decreases end - j,
            {
                assert(v[j as int] == ls@[j as int]@);
                if contains(ls[j].as_str(), "name = \"usi-engine\"") || contains(
                    ls[j].as_str(),
                    "name = 'usi-engine'",
                ) {
                    assert(names_engine_binary(v[j as int]));
                    assert(engine_bin_at(v, i as int));
                    return true;
                }
                j = j + 1;
            }
            assert(!engine_bin_at(v, i as int)) by {
                assert forall|m: int| i < m < i + 5 && m < v.len() implies !names_engine_binary(
                    #[trigger] v[m],
                ) by {
                    assert(m < end);
                }
            }
        }
        i = i + 1;
    }
    false
}

} // verus!
