//! Cache of GPU bind groups per rendered object and version.
use vstd::prelude::*;
use ahash::AHashMap;
use wgpu::BindGroup;

verus! {

/// Identity of a rendered object at one version.
#[derive(Clone, Copy, Debug, PartialEq, Eq, Structural, Hash)]
pub struct ObjectId {
    pub id: u32,
    pub version: u64,
}

/// Sizes of the cache.
#[derive(Clone, Copy, Debug)]
pub struct CacheStats {
    pub bind_groups_count: usize,
    pub objects_count: usize,
}

#[verifier::external_type_specification]
#[verifier::external_body]
#[verifier::reject_recursive_types(K)]
#[verifier::reject_recursive_types(V)]
#[verifier::reject_recursive_types(S)]
pub struct ExAHashMap<K, V, S>(AHashMap<K, V, S>);

#[verifier::external_type_specification]
#[verifier::external_body]
pub struct ExRandomState(ahash::RandomState);

#[verifier::external_type_specification]
#[verifier::external_body]
pub struct ExBindGroup(BindGroup);

/// Entries of a version table: object id to its current version.
pub uninterp spec fn version_entries(m: AHashMap<u32, u64>) -> Map<u32, u64>;

/// Entries of a bind-group table: key `(object id, version)` to the bind
/// group stored under it.
pub uninterp spec fn bind_group_entries(m: AHashMap<(u32, u64), BindGroup>) -> Map<(u32, u64), BindGroup>;

/// The empty version table.
pub open spec fn no_versions() -> Map<u32, u64> {
    Map::empty()
}

/// The empty bind-group table.
pub open spec fn no_groups() -> Map<(u32, u64), BindGroup> {
    Map::empty()
}

/// The entries of `groups` whose key is current in `active`, with their bind groups.
pub open spec fn current_entries(groups: Map<(u32, u64), BindGroup>, active: Map<u32, u64>) -> Map<
    (u32, u64),
    BindGroup,
> {
    groups.restrict(groups.dom().filter(|k: (u32, u64)| is_current(active, k)))
}

/// An empty version table (`AHashMap::new`).
#[verifier::external_body]
fn versions_new() -> (r: AHashMap<u32, u64>)
    ensures
        version_entries(r) == no_versions(),
{
    AHashMap::new()
}

/// The version recorded for `id` (`AHashMap::get`, copied out).
#[verifier::external_body]
fn versions_get(m: &AHashMap<u32, u64>, id: u32) -> (r: Option<u64>)
    ensures
        r is Some <==> version_entries(*m).contains_key(id),
        r matches Some(v) ==> v == version_entries(*m)[id],
{
    m.get(&id).copied()
}

/// Records `version` for `id`, replacing any earlier one (`AHashMap::insert`).
#[verifier::external_body]
fn versions_insert(m: &mut AHashMap<u32, u64>, id: u32, version: u64)
    ensures
        version_entries(*final(m)) == version_entries(*old(m)).insert(id, version),
{
    m.insert(id, version);
}

/// Number of entries (`HashMap::len` through `Deref`).
#[verifier::external_body]
fn versions_len(m: &AHashMap<u32, u64>) -> (r: usize)
    ensures
        r == version_entries(*m).dom().len(),
{
    m.len()
}

/// An empty bind-group table (`AHashMap::new`).
#[verifier::external_body]
fn groups_new() -> (r: AHashMap<(u32, u64), BindGroup>)
    ensures
        bind_group_entries(r) == no_groups(),
{
    AHashMap::new()
}

/// The bind group stored under `key`, if any (`AHashMap::get`).
#[verifier::external_body]
fn groups_get(m: &AHashMap<(u32, u64), BindGroup>, key: (u32, u64)) -> (r: Option<&BindGroup>)
    ensures
        r is Some <==> bind_group_entries(*m).contains_key(key),
        r matches Some(g) ==> *g == bind_group_entries(*m)[key],
{
    m.get(&key)
}

/// Stores `group` under `key`, replacing any earlier one (`AHashMap::insert`).
#[verifier::external_body]
fn groups_insert(m: &mut AHashMap<(u32, u64), BindGroup>, key: (u32, u64), group: BindGroup)
    ensures
        bind_group_entries(*final(m)) == bind_group_entries(*old(m)).insert(key, group),
{
    m.insert(key, group);
}

/// Removes the entry of `key` (`AHashMap::remove`).
#[verifier::external_body]
fn groups_remove(m: &mut AHashMap<(u32, u64), BindGroup>, key: (u32, u64))
    ensures
        bind_group_entries(*final(m)) == bind_group_entries(*old(m)).remove(key),
{
    m.remove(&key);
}

/// Number of entries (`HashMap::len` through `Deref`).
#[verifier::external_body]
fn groups_len(m: &AHashMap<(u32, u64), BindGroup>) -> (r: usize)
    ensures
        r == bind_group_entries(*m).dom().len(),
{
    m.len()
}

/// The key names an object at its version in `active`.
pub open spec fn is_current(active: Map<u32, u64>, key: (u32, u64)) -> bool {
    active.contains_key(key.0) && active[key.0] == key.1
}

/// Whether `key` names an object at its version in `active`.
fn key_is_current(active: &AHashMap<u32, u64>, key: &(u32, u64)) -> (r: bool)
    ensures
        r == is_current(version_entries(*active), *key),
{
    match versions_get(active, key.0) {
        Some(v) => v == key.1,
        None => false,
    }
}

/// Keeps the entries whose key is current in `active`, with their bind
/// groups (`HashMap::retain` through `DerefMut`, with `key_is_current` as the
/// predicate).
#[verifier::external_body]
fn groups_retain_current(m: &mut AHashMap<(u32, u64), BindGroup>, active: &AHashMap<u32, u64>)
    ensures
        bind_group_entries(*final(m)) == current_entries(bind_group_entries(*old(m)), version_entries(*active)),
{
    m.retain(|k, _| key_is_current(active, k));
}

/// Version table built from `pairs` in order (a later pair of the same id wins).
pub open spec fn pairs_table(pairs: Seq<(u32, u64)>) -> Map<u32, u64>
    decreases pairs.len(),
{
    if pairs.len() == 0 {
        Map::empty()
    } else {
        pairs_table(pairs.drop_last()).insert(pairs.last().0, pairs.last().1)
    }
}

/// Bind groups cached per object version, and the current version of each object.
pub struct SceneCache {
    bind_groups: AHashMap<(u32, u64), BindGroup>,
    object_versions: AHashMap<u32, u64>,
}

impl SceneCache {
    /// The cached bind groups, by `(object id, version)`.
    pub closed spec fn groups(&self) -> Map<(u32, u64), BindGroup> {
        bind_group_entries(self.bind_groups)
    }

    /// Keys `(object id, version)` of the cached bind groups.
    pub open spec fn cached(&self) -> Set<(u32, u64)> {
        self.groups().dom()
    }

    /// Current version of each known object.
    pub closed spec fn versions(&self) -> Map<u32, u64> {
        version_entries(self.object_versions)
    }

    /// An empty cache.
    pub fn new() -> (r: Self)
        ensures
            r.groups() == Map::<(u32, u64), BindGroup>::empty(),
            r.versions() == Map::<u32, u64>::empty(),
    {
        SceneCache { bind_groups: groups_new(), object_versions: versions_new() }
    }

    /// Whether object `object_id` at `version` needs new GPU resources: it is
    /// unknown, or known at another version.
    pub fn is_dirty(&self, object_id: u32, version: u64) -> (r: bool)
        ensures
            r == !is_current(self.versions(), (object_id, version)),
    {
        match versions_get(&self.object_versions, object_id) {
            Some(cached_version) => cached_version != version,
            None => true,
        }
    }

    /// Caches `bind_group` for object `object_id` at `version`, dropping the
    /// bind group of the object's previous version.
    pub fn cache_bind_group(&mut self, object_id: u32, version: u64, bind_group: BindGroup)
        ensures
            final(self).versions() == old(self).versions().insert(object_id, version),
            final(self).groups() == (if old(self).versions().contains_key(object_id) {
                old(self).groups().remove((object_id, old(self).versions()[object_id]))
            } else {
                old(self).groups()
            }).insert((object_id, version), bind_group),
    {
        match versions_get(&self.object_versions, object_id) {
            Some(old_version) => {
                groups_remove(&mut self.bind_groups, (object_id, old_version));
            },
            None => {},
        }
        groups_insert(&mut self.bind_groups, (object_id, version), bind_group);
        versions_insert(&mut self.object_versions, object_id, version);
    }

    /// The bind group cached for object `object_id` at `version`, if any.
    pub fn get_bind_group(&self, object_id: u32, version: u64) -> (r: Option<&BindGroup>)
        ensures
            r is Some <==> self.groups().contains_key((object_id, version)),
            r matches Some(g) ==> *g == self.groups()[(object_id, version)],
    {
        groups_get(&self.bind_groups, (object_id, version))
    }

    /// Keeps only the bind groups of the objects of `active_objects` at their
    /// listed versions, and makes those the current versions.
    pub fn cleanup_old_entries(&mut self, active_objects: &[(u32, u64)])
        ensures
            final(self).versions() == pairs_table(active_objects@),
            final(self).groups() == current_entries(old(self).groups(), pairs_table(active_objects@)),
    {
        let mut active_ids = versions_new();
        let mut i: usize = 0;
        while i < active_objects.len()
            invariant
                i <= active_objects@.len(),
                version_entries(active_ids) == pairs_table(active_objects@.subrange(0, i as int)),
            decreases active_objects@.len() - i,
        {
            let (id, version) = active_objects[i];
            versions_insert(&mut active_ids, id, version);
            proof {
                let s = active_objects@.subrange(0, i + 1);
                assert(s.drop_last() =~= active_objects@.subrange(0, i as int));
            }
            i += 1;
        }
        proof {
            assert(active_objects@.subrange(0, i as int) =~= active_objects@);
        }
        groups_retain_current(&mut self.bind_groups, &active_ids);
        self.object_versions = active_ids;
    }

    /// Numbers of cached bind groups and of known objects.
    pub fn stats(&self) -> (r: CacheStats)
        ensures
            r.bind_groups_count == self.groups().dom().len(),
            r.objects_count == self.versions().dom().len(),
    {
        CacheStats {
            bind_groups_count: groups_len(&self.bind_groups),
            objects_count: versions_len(&self.object_versions),
        }
    }
}


/// After caching a bind group for an object at a version, that object at
/// that version is not dirty and the bind group found for it is the one
/// cached; the bind group of its previous version is gone.
pub proof fn lemma_cached_is_clean(
    versions: Map<u32, u64>,
    groups: Map<(u32, u64), BindGroup>,
    object_id: u32,
    version: u64,
    bind_group: BindGroup,
)
    ensures
        ({
            let after = (if versions.contains_key(object_id) {
                groups.remove((object_id, versions[object_id]))
            } else {
                groups
            }).insert((object_id, version), bind_group);
            &&& is_current(versions.insert(object_id, version), (object_id, version))
            &&& after.contains_key((object_id, version))
            &&& after[(object_id, version)] == bind_group
            &&& versions.contains_key(object_id) && versions[object_id] != version
                ==> !after.contains_key((object_id, versions[object_id]))
        }),
{
}
} // verus!
