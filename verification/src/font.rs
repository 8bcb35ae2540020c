//! The fonts that are declared to the cache.
//!
//! Clients in different namespaces may declare the same font. Such keys are
//! mapped to one shared key, under which the font is stored once; the font
//! goes when the last key that is mapped to its shared key goes.

use std::sync::Arc;
use vstd::prelude::*;
use crate::api::{FontInstanceKey, FontKey, IdNamespace, ImageKey};
use crate::class_cache::{CacheKey, ResourceClassCache};

verus! {

/// A key that belongs to a namespace.
pub trait NamespacedKey: CacheKey {
    spec fn spec_namespace(&self) -> IdNamespace;

    /// The namespace of the key.
    fn namespace(&self) -> (ns: IdNamespace)
        ensures
            ns == self.spec_namespace(),
    ;
}

impl NamespacedKey for FontKey {
    open spec fn spec_namespace(&self) -> IdNamespace {
        self.0
    }

    fn namespace(&self) -> (ns: IdNamespace) {
        self.0
    }
}

impl NamespacedKey for FontInstanceKey {
    open spec fn spec_namespace(&self) -> IdNamespace {
        self.0
    }

    fn namespace(&self) -> (ns: IdNamespace) {
        self.0
    }
}

impl NamespacedKey for ImageKey {
    open spec fn spec_namespace(&self) -> IdNamespace {
        self.0
    }

    fn namespace(&self) -> (ns: IdNamespace) {
        self.0
    }
}

/// A font file that the platform knows by path.
pub struct NativeFontHandle {
    pub path: String,
    pub index: u32,
}

/// The declaration of a font.
pub enum FontTemplate {
    /// The bytes of a font file, shared between the holders, and the index
    /// of the font in the file.
    Raw(Arc<Vec<u8>>, u32),
    Native(NativeFontHandle),
}

/// The declaration of a font instance, as far as the cache reads it.
#[derive(Clone, Copy, Debug, PartialEq, Eq, Structural)]
pub struct BaseFontInstance {
    pub instance_key: FontInstanceKey,
    pub font_key: FontKey,
    /// The size of the font, a single-precision number.
    pub size: u32,
}

/// Whether a key map still has a key that is mapped to a shared key.
pub open spec fn still_shared<K>(keys: Map<K, K>, shared: K) -> bool {
    exists|k: K| #[trigger] keys.contains_key(k) && keys[k] == shared
}

/// The shared keys that lose their last key when a namespace is cleared.
pub open spec fn released_by_namespace<K: NamespacedKey>(keys: Map<K, K>, namespace: IdNamespace) -> Set<K> {
    Set::new(
        |shared: K|
            {
                &&& exists|k: K| #[trigger]
                    keys.contains_key(k) && k.spec_namespace() == namespace && keys[k] == shared
                &&& !exists|k: K| #[trigger]
                    keys.contains_key(k) && k.spec_namespace() != namespace && keys[k] == shared
            },
    )
}

/// Maps the keys of the clients to the shared keys.
pub struct SharedKeyMap<K: NamespacedKey> {
    keys: ResourceClassCache<K, K, ()>,
}

/// The key map of the fonts.
pub type FontKeyMap = SharedKeyMap<FontKey>;

/// The key map of the font instances.
pub type FontInstanceKeyMap = SharedKeyMap<FontInstanceKey>;

impl<K: NamespacedKey> SharedKeyMap<K> {
    pub closed spec fn wf(&self) -> bool {
        self.keys.wf()
    }

    pub closed spec fn view(&self) -> Map<K, K> {
        self.keys@
    }

    /// A map without keys.
    pub fn new() -> (map: Self)
        ensures
            map.wf(),
            map@ == Map::<K, K>::empty(),
    {
        SharedKeyMap { keys: ResourceClassCache::new() }
    }

    /// Maps a key to a shared key.
    pub fn add_key(&mut self, key: K, shared_key: K)
        requires
            old(self).wf(),
        ensures
            final(self).wf(),
            final(self)@ == old(self)@.insert(key, shared_key),
    {
        self.keys.insert(key, shared_key);
    }

    pub open spec fn spec_map_key(&self, key: K) -> K {
        if self@.contains_key(key) {
            self@[key]
        } else {
            key
        }
    }

    /// The shared key of a key. A key that is not mapped stands for itself.
    pub fn map_key(&self, key: &K) -> (shared_key: K)
        requires
            self.wf(),
        ensures
            shared_key == self.spec_map_key(*key),
    {
        match self.keys.try_get(key) {
            Some(shared_key) => *shared_key,
            None => *key,
        }
    }

    /// Whether a key is still mapped to a shared key.
    fn is_shared(&self, shared_key: &K) -> (shared: bool)
        requires
            self.wf(),
        ensures
            shared == still_shared(self@, *shared_key),
    {
        proof {
            self.keys.lemma_positions();
        }
        let mut i: usize = 0;
        while i < self.keys.len()
            invariant
                self.wf(),
                i <= self.keys.order().len(),
                forall|j: int| 0 <= j < i ==> self.keys@[#[trigger] self.keys.order()[j]] != *shared_key,
            decreases self.keys.order().len() - i,
        {
            if self.keys.value_at(i).same(shared_key) {
                proof {
                    assert(self@.contains_key(self.keys.order()[i as int]));
                }
                return true;
            }
            i = i + 1;
        }
        proof {
            if still_shared(self@, *shared_key) {
                let k = choose|k: K| #[trigger] self@.contains_key(k) && self@[k] == *shared_key;
                crate::class_cache::lemma_index_of(self.keys.order(), k);
                let j = self.keys.order().index_of(k);
                assert(self.keys.order()[j] == k);
            }
        }
        false
    }

    /// Forgets a key. Returns its shared key if no other key is mapped to it
    /// any more.
    pub fn delete_key(&mut self, key: &K) -> (released: Option<K>)
        requires
            old(self).wf(),
        ensures
            final(self).wf(),
            final(self)@ == old(self)@.remove(*key),
            released == (if old(self)@.contains_key(*key) && !still_shared(
                old(self)@.remove(*key),
                old(self)@[*key],
            ) {
                Some(old(self)@[*key])
            } else {
                None
            }),
    {
        match self.keys.remove(key) {
            Some(shared_key) => {
                if self.is_shared(&shared_key) {
                    None
                } else {
                    Some(shared_key)
                }
            },
            None => None,
        }
    }

    /// Forgets the keys of a namespace. Returns the shared keys that no key
    /// is mapped to any more, each once.
    pub fn clear_namespace(&mut self, namespace: IdNamespace) -> (released: Vec<K>)
        requires
            old(self).wf(),
        ensures
            final(self).wf(),
            final(self)@ == old(self)@.restrict(Set::new(|k: K| k.spec_namespace() != namespace)),
            released@.no_duplicates(),
            released@.to_set() == released_by_namespace(old(self)@, namespace),
    {
        let ghost kept = Set::new(|k: K| k.spec_namespace() != namespace);
        let mut keep: Vec<bool> = Vec::new();
        let mut i: usize = 0;
        while i < self.keys.len()
            invariant
                self.wf(),
                *self == *old(self),
                i <= self.keys.order().len(),
                keep@.len() == i,
                forall|j: int|
                    0 <= j < i ==> keep@[j] == ((#[trigger] self.keys.order()[j]).spec_namespace() != namespace),
            decreases self.keys.order().len() - i,
        {
            let key = self.keys.key_at(i);
            keep.push(key.namespace() != namespace);
            i = i + 1;
        }
        proof {
            self.keys.lemma_marked_is_restrict(keep@, kept);
            old(self).keys.lemma_positions();
        }
        let removed = self.keys.retain_marked(&keep);
        let mut released: Vec<K> = Vec::new();
        let mut j: usize = 0;
        while j < removed.len()
            invariant
                self.wf(),
                j <= removed@.len(),
                released@.no_duplicates(),
                forall|s: K|
                    released@.contains(s) <==> (exists|m: int| 0 <= m < j && removed@[m] == s) && !still_shared(
                        self@,
                        s,
                    ),
            decreases removed@.len() - j,
        {
            let shared_key = removed[j];
            let ghost before = released@;
            if !self.is_shared(&shared_key) && !crate::class_cache::list_contains(released.as_slice(), &shared_key) {
                released.push(shared_key);
            }
            proof {
                assert forall|s: K|
                    released@.contains(s) <==> (exists|m: int| 0 <= m < j + 1 && removed@[m] == s) && !still_shared(
                        self@,
                        s,
                    ) by {
                    if released@.contains(s) {
                        let p = choose|p: int| 0 <= p < released@.len() && released@[p] == s;
                        if p < before.len() {
                            assert(before[p] == s);
                            assert(before.contains(s));
                            let m = choose|m: int| 0 <= m < j && removed@[m] == s;
                            assert(0 <= m < j + 1 && removed@[m] == s);
                        } else {
                            assert(removed@[j as int] == s);
                        }
                    }
                    if (exists|m: int| 0 <= m < j + 1 && removed@[m] == s) && !still_shared(self@, s) {
                        let m = choose|m: int| 0 <= m < j + 1 && removed@[m] == s;
                        if m < j {
                            assert(before.contains(s));
                            let p = choose|p: int| 0 <= p < before.len() && before[p] == s;
                            assert(released@[p] == s);
                        } else if before.contains(s) {
                            let p = choose|p: int| 0 <= p < before.len() && before[p] == s;
                            assert(released@[p] == s);
                        } else {
                            assert(released@[before.len() as int] == s);
                        }
                    }
                }
            }
            j = j + 1;
        }
        proof {
            let old_map = old(self)@;
            let order = old(self).keys.order();
            assert(self@ == old_map.restrict(kept));
            assert forall|s: K| released@.to_set().contains(s) <==> released_by_namespace(old_map, namespace).contains(
                s,
            ) by {
                if released@.contains(s) {
                    let m = choose|m: int| 0 <= m < removed@.len() && removed@[m] == s;
                    assert(removed@.contains(s));
                    let i = choose|i: int| 0 <= i < keep@.len() && !keep@[i] && #[trigger] old_map[order[i]] == s;
                    assert(old_map.contains_key(order[i]) && order[i].spec_namespace() == namespace);
                    if exists|k: K| #[trigger]
                        old_map.contains_key(k) && k.spec_namespace() != namespace && old_map[k] == s {
                        let k = choose|k: K| #[trigger]
                            old_map.contains_key(k) && k.spec_namespace() != namespace && old_map[k] == s;
                        assert(self@.contains_key(k) && self@[k] == s);
                    }
                }
                if released_by_namespace(old_map, namespace).contains(s) {
                    let k = choose|k: K| #[trigger]
                        old_map.contains_key(k) && k.spec_namespace() == namespace && old_map[k] == s;
                    crate::class_cache::lemma_index_of(order, k);
                    let i = order.index_of(k);
                    assert(order[i] == k);
                    assert(!keep@[i] && old_map[order[i]] == s);
                    assert(removed@.contains(s));
                    let m = choose|m: int| 0 <= m < removed@.len() && removed@[m] == s;
                    if still_shared(self@, s) {
                        let k2 = choose|k2: K| #[trigger] self@.contains_key(k2) && self@[k2] == s;
                        assert(old_map.contains_key(k2) && k2.spec_namespace() != namespace && old_map[k2] == s);
                    }
                }
            }
            assert(released@.to_set() =~= released_by_namespace(old_map, namespace));
        }
        released
    }
}

/// The fonts and font instances that are declared, and the key maps that
/// lead to them.
pub struct SharedFontResources {
    templates: ResourceClassCache<FontKey, FontTemplate, ()>,
    instances: ResourceClassCache<FontInstanceKey, BaseFontInstance, ()>,
    font_keys: FontKeyMap,
    instance_keys: FontInstanceKeyMap,
}

/// What clearing a namespace took away.
pub struct ClearedFonts {
    /// The fonts that were declared under keys of the namespace.
    pub deleted_keys: Vec<FontKey>,
    /// The shared font instances that lost their last key.
    pub shared_instance_keys: Vec<FontInstanceKey>,
    /// The shared fonts that lost their last key.
    pub shared_keys: Vec<FontKey>,
}

/// The fonts and font instances as a mathematical value.
pub struct SharedFontResourcesView {
    /// The declared fonts, by shared key.
    pub templates: Map<FontKey, FontTemplate>,
    /// The declared font instances, by shared key.
    pub instances: Map<FontInstanceKey, BaseFontInstance>,
    /// The shared key of every font key of a client.
    pub font_keys: Map<FontKey, FontKey>,
    /// The shared key of every font instance key of a client.
    pub instance_keys: Map<FontInstanceKey, FontInstanceKey>,
}

impl SharedFontResources {
    pub closed spec fn wf(&self) -> bool {
        &&& self.templates.wf()
        &&& self.instances.wf()
        &&& self.font_keys.wf()
        &&& self.instance_keys.wf()
    }

    pub closed spec fn view(&self) -> SharedFontResourcesView {
        SharedFontResourcesView {
            templates: self.templates@,
            instances: self.instances@,
            font_keys: self.font_keys@,
            instance_keys: self.instance_keys@,
        }
    }

    /// No font is declared.
    pub fn new() -> (fonts: Self)
        ensures
            fonts.wf(),
            fonts@ == SharedFontResourcesView::empty(),
    {
        SharedFontResources {
            templates: ResourceClassCache::new(),
            instances: ResourceClassCache::new(),
            font_keys: SharedKeyMap::new(),
            instance_keys: SharedKeyMap::new(),
        }
    }

    /// Maps a font key of a client to a shared key.
    pub fn add_font_key(&mut self, key: FontKey, shared_key: FontKey)
        requires
            old(self).wf(),
        ensures
            final(self).wf(),
            final(self)@ == (SharedFontResourcesView {
                font_keys: old(self)@.font_keys.insert(key, shared_key),
                ..old(self)@
            }),
    {
        self.font_keys.add_key(key, shared_key);
    }

    /// Declares a font instance under a shared key, and maps a key of a
    /// client to it.
    pub fn add_font_instance(&mut self, key: FontInstanceKey, instance: BaseFontInstance)
        requires
            old(self).wf(),
        ensures
            final(self).wf(),
            final(self)@ == (SharedFontResourcesView {
                instance_keys: old(self)@.instance_keys.insert(key, instance.instance_key),
                instances: old(self)@.instances.insert(instance.instance_key, instance),
                ..old(self)@
            }),
    {
        self.instance_keys.add_key(key, instance.instance_key);
        self.instances.insert(instance.instance_key, instance);
    }

    /// Whether a font is declared under a shared key.
    pub fn has_font(&self, shared_key: &FontKey) -> (found: bool)
        requires
            self.wf(),
        ensures
            found == self@.templates.contains_key(*shared_key),
    {
        self.templates.contains_key(shared_key)
    }

    /// The declaration of a font, by shared key.
    pub fn get_font(&self, shared_key: &FontKey) -> (template: Option<&FontTemplate>)
        requires
            self.wf(),
        ensures
            match template {
                Some(t) => self@.templates.contains_key(*shared_key) && *t == self@.templates[*shared_key],
                None => !self@.templates.contains_key(*shared_key),
            },
    {
        self.templates.try_get(shared_key)
    }

    /// The declaration of a font instance, by shared key.
    pub fn get_font_instance(&self, shared_key: FontInstanceKey) -> (instance: Option<BaseFontInstance>)
        requires
            self.wf(),
        ensures
            instance == (if self@.instances.contains_key(shared_key) {
                Some(self@.instances[shared_key])
            } else {
                None
            }),
    {
        match self.instances.try_get(&shared_key) {
            Some(instance) => Some(*instance),
            None => None,
        }
    }

    /// The shared key of a font key.
    pub fn map_font_key(&self, key: FontKey) -> (shared_key: FontKey)
        requires
            self.wf(),
        ensures
            shared_key == self@.shared_font_key(key),
    {
        self.font_keys.map_key(&key)
    }

    /// The shared key of a font instance key.
    pub fn map_font_instance_key(&self, key: FontInstanceKey) -> (shared_key: FontInstanceKey)
        requires
            self.wf(),
        ensures
            shared_key == self@.shared_instance_key(key),
    {
        self.instance_keys.map_key(&key)
    }

    /// Declares a font under a shared key.
    pub fn add_font(&mut self, shared_key: FontKey, template: FontTemplate)
        requires
            old(self).wf(),
        ensures
            final(self).wf(),
            final(self)@ == (SharedFontResourcesView {
                templates: old(self)@.templates.insert(shared_key, template),
                ..old(self)@
            }),
    {
        self.templates.insert(shared_key, template);
    }

    /// Removes the declaration of a font, by shared key.
    pub fn delete_font(&mut self, shared_key: &FontKey)
        requires
            old(self).wf(),
        ensures
            final(self).wf(),
            final(self)@ == (SharedFontResourcesView {
                templates: old(self)@.templates.remove(*shared_key),
                ..old(self)@
            }),
    {
        let _ = self.templates.remove(shared_key);
    }

    /// Removes the declaration of a font instance, by shared key.
    pub fn delete_font_instance(&mut self, shared_key: FontInstanceKey)
        requires
            old(self).wf(),
        ensures
            final(self).wf(),
            final(self)@ == (SharedFontResourcesView {
                instances: old(self)@.instances.remove(shared_key),
                ..old(self)@
            }),
    {
        let _ = self.instances.remove(&shared_key);
    }

    /// Forgets everything of a namespace: the fonts and font instances that
    /// are declared under its keys, the keys of its clients, and the fonts
    /// and font instances under shared keys that lose their last key.
    pub fn clear_namespace(&mut self, namespace: IdNamespace) -> (cleared: ClearedFonts)
        requires
            old(self).wf(),
        ensures
            final(self).wf(),
            final(self)@ == old(self)@.with_namespace_cleared(namespace),
            cleared.deleted_keys@.no_duplicates(),
            cleared.deleted_keys@.to_set() == Set::new(
                |k: FontKey| old(self)@.templates.contains_key(k) && k.0 == namespace,
            ),
            cleared.shared_instance_keys@.no_duplicates(),
            cleared.shared_instance_keys@.to_set() == released_by_namespace(old(self)@.instance_keys, namespace),
            cleared.shared_keys@.no_duplicates(),
            cleared.shared_keys@.to_set() == released_by_namespace(old(self)@.font_keys, namespace),
    {
        // First what is declared under keys of the namespace itself.
        let mut keep: Vec<bool> = Vec::new();
        let mut i: usize = 0;
        while i < self.instances.len()
            invariant
                self.wf(),
                *self == *old(self),
                i <= self.instances.order().len(),
                keep@.len() == i,
                forall|j: int| 0 <= j < i ==> keep@[j] == ((#[trigger] self.instances.order()[j]).0 != namespace),
            decreases self.instances.order().len() - i,
        {
            let key = self.instances.key_at(i);
            keep.push(key.0 != namespace);
            i = i + 1;
        }
        proof {
            self.instances.lemma_marked_is_restrict(keep@, Set::new(|k: FontInstanceKey| k.0 != namespace));
        }
        let _ = self.instances.retain_marked(&keep);
        let mut keep: Vec<bool> = Vec::new();
        let mut deleted_keys: Vec<FontKey> = Vec::new();
        let mut i: usize = 0;
        proof {
            self.templates.lemma_positions();
        }
        while i < self.templates.len()
            invariant
                self.templates.wf(),
                self.font_keys.wf(),
                self.instance_keys.wf(),
                self.instances.wf(),
                self.templates == old(self).templates,
                self.font_keys == old(self).font_keys,
                self.instance_keys == old(self).instance_keys,
                self.instances@ == old(self).instances@.restrict(Set::new(|k: FontInstanceKey| k.0 != namespace)),
                i <= self.templates.order().len(),
                keep@.len() == i,
                forall|j: int| 0 <= j < i ==> keep@[j] == ((#[trigger] self.templates.order()[j]).0 != namespace),
                forall|k: FontKey|
                    deleted_keys@.contains(k) <==> exists|j: int|
                        0 <= j < i && #[trigger] self.templates.order()[j] == k && k.0 == namespace,
                deleted_keys@.no_duplicates(),
            decreases self.templates.order().len() - i,
        {
            let key = self.templates.key_at(i);
            let ghost before = deleted_keys@;
            keep.push(key.0 != namespace);
            if key.0 == namespace {
                proof {
                    self.templates.lemma_positions();
                    if before.contains(key) {
                        let j = choose|j: int| 0 <= j < i && #[trigger] self.templates.order()[j] == key;
                        assert(self.templates.order()[j] != self.templates.order()[i as int]);
                    }
                }
                deleted_keys.push(key);
            }
            proof {
                assert forall|k: FontKey|
                    deleted_keys@.contains(k) <==> exists|j: int|
                        0 <= j < i + 1 && #[trigger] self.templates.order()[j] == k && k.0 == namespace by {
                    if deleted_keys@.contains(k) {
                        let p = choose|p: int| 0 <= p < deleted_keys@.len() && deleted_keys@[p] == k;
                        if p < before.len() {
                            assert(before[p] == k);
                            assert(before.contains(k));
                            let j = choose|j: int|
                                0 <= j < i && #[trigger] self.templates.order()[j] == k && k.0 == namespace;
                            assert(0 <= j < i + 1 && self.templates.order()[j] == k);
                        } else {
                            assert(self.templates.order()[i as int] == k);
                        }
                    }
                    if exists|j: int| 0 <= j < i + 1 && #[trigger] self.templates.order()[j] == k && k.0 == namespace {
                        let j = choose|j: int|
                            0 <= j < i + 1 && #[trigger] self.templates.order()[j] == k && k.0 == namespace;
                        if j < i {
                            assert(before.contains(k));
                            let p = choose|p: int| 0 <= p < before.len() && before[p] == k;
                            assert(deleted_keys@[p] == k);
                        } else {
                            assert(deleted_keys@[before.len() as int] == k);
                        }
                    }
                }
            }
            i = i + 1;
        }
        proof {
            self.templates.lemma_marked_is_restrict(keep@, Set::new(|k: FontKey| k.0 != namespace));
            self.templates.lemma_positions();
            assert(deleted_keys@.to_set() =~= Set::new(
                |k: FontKey| old(self)@.templates.contains_key(k) && k.0 == namespace,
            )) by {
                assert forall|k: FontKey| old(self)@.templates.contains_key(k) && k.0 == namespace
                    implies deleted_keys@.contains(k) by {
                    crate::class_cache::lemma_index_of(self.templates.order(), k);
                    let j = self.templates.order().index_of(k);
                    assert(self.templates.order()[j] == k);
                }
            }
        }
        let _ = self.templates.retain_marked(&keep);
        // Then the shared instance keys that were mapped from the namespace.
        let shared_instance_keys = self.instance_keys.clear_namespace(namespace);
        let mut keep: Vec<bool> = Vec::new();
        let mut i: usize = 0;
        while i < self.instances.len()
            invariant
                self.instances.wf(),
                i <= self.instances.order().len(),
                keep@.len() == i,
                forall|j: int|
                    0 <= j < i ==> keep@[j] == !shared_instance_keys@.contains(#[trigger] self.instances.order()[j]),
            decreases self.instances.order().len() - i,
        {
            let key = self.instances.key_at(i);
            keep.push(!crate::class_cache::list_contains(shared_instance_keys.as_slice(), &key));
            i = i + 1;
        }
        proof {
            self.instances.lemma_marked_is_restrict(
                keep@,
                Set::new(|k: FontInstanceKey| !shared_instance_keys@.contains(k)),
            );
        }
        let _ = self.instances.retain_marked(&keep);
        // At last the shared font keys that were mapped from the namespace.
        let shared_keys = self.font_keys.clear_namespace(namespace);
        let mut keep: Vec<bool> = Vec::new();
        let mut i: usize = 0;
        while i < self.templates.len()
            invariant
                self.templates.wf(),
                i <= self.templates.order().len(),
                keep@.len() == i,
                forall|j: int| 0 <= j < i ==> keep@[j] == !shared_keys@.contains(#[trigger] self.templates.order()[j]),
            decreases self.templates.order().len() - i,
        {
            let key = self.templates.key_at(i);
            keep.push(!crate::class_cache::list_contains(shared_keys.as_slice(), &key));
            i = i + 1;
        }
        proof {
            self.templates.lemma_marked_is_restrict(keep@, Set::new(|k: FontKey| !shared_keys@.contains(k)));
        }
        let _ = self.templates.retain_marked(&keep);
        proof {
            let expected = old(self)@.with_namespace_cleared(namespace);
            assert(Set::new(|k: FontKey| k.spec_namespace() != namespace) =~= Set::new(
                |k: FontKey| k.0 != namespace,
            ));
            assert(Set::new(|k: FontInstanceKey| k.spec_namespace() != namespace) =~= Set::new(
                |k: FontInstanceKey| k.0 != namespace,
            ));
            assert(self@.font_keys =~= expected.font_keys);
            assert(self@.instance_keys =~= expected.instance_keys);
            assert(self@.templates =~= expected.templates);
            assert(self@.instances =~= expected.instances);
        }
        ClearedFonts { deleted_keys, shared_instance_keys, shared_keys }
    }

    /// Forgets a font key of a client. Returns its shared key if this was
    /// the last key of the font.
    pub fn delete_font_key(&mut self, key: &FontKey) -> (released: Option<FontKey>)
        requires
            old(self).wf(),
        ensures
            final(self).wf(),
            final(self)@ == (SharedFontResourcesView {
                font_keys: old(self)@.font_keys.remove(*key),
                ..old(self)@
            }),
            released == old(self)@.released_font(*key),
    {
        self.font_keys.delete_key(key)
    }

    /// Forgets a font instance key of a client. Returns its shared key if
    /// this was the last key of the font instance.
    pub fn delete_font_instance_key(&mut self, key: &FontInstanceKey) -> (released: Option<FontInstanceKey>)
        requires
            old(self).wf(),
        ensures
            final(self).wf(),
            final(self)@ == (SharedFontResourcesView {
                instance_keys: old(self)@.instance_keys.remove(*key),
                ..old(self)@
            }),
            released == old(self)@.released_instance(*key),
    {
        self.instance_keys.delete_key(key)
    }
}

impl SharedFontResourcesView {
    /// The fonts and font instances after a namespace was cleared.
    pub open spec fn with_namespace_cleared(self, namespace: IdNamespace) -> SharedFontResourcesView {
        SharedFontResourcesView {
            templates: self.templates.restrict(
                Set::new(
                    |k: FontKey| k.0 != namespace && !released_by_namespace(self.font_keys, namespace).contains(k),
                ),
            ),
            instances: self.instances.restrict(
                Set::new(
                    |k: FontInstanceKey|
                        k.0 != namespace && !released_by_namespace(self.instance_keys, namespace).contains(k),
                ),
            ),
            font_keys: self.font_keys.restrict(Set::new(|k: FontKey| k.0 != namespace)),
            instance_keys: self.instance_keys.restrict(Set::new(|k: FontInstanceKey| k.0 != namespace)),
        }
    }

    /// No font is declared.
    pub open spec fn empty() -> SharedFontResourcesView {
        SharedFontResourcesView {
            templates: Map::empty(),
            instances: Map::empty(),
            font_keys: Map::empty(),
            instance_keys: Map::empty(),
        }
    }

    /// The shared key of a font key. A key that is not mapped stands for
    /// itself.
    pub open spec fn shared_font_key(self, key: FontKey) -> FontKey {
        if self.font_keys.contains_key(key) {
            self.font_keys[key]
        } else {
            key
        }
    }

    /// The shared key of a font instance key.
    pub open spec fn shared_instance_key(self, key: FontInstanceKey) -> FontInstanceKey {
        if self.instance_keys.contains_key(key) {
            self.instance_keys[key]
        } else {
            key
        }
    }

    /// The shared key that goes with a font key, if the key is the last one
    /// of its font.
    pub open spec fn released_font(self, key: FontKey) -> Option<FontKey> {
        if self.font_keys.contains_key(key) && !still_shared(self.font_keys.remove(key), self.font_keys[key]) {
            Some(self.font_keys[key])
        } else {
            None
        }
    }

    /// The shared key that goes with a font instance key, if the key is the
    /// last one of its font instance.
    pub open spec fn released_instance(self, key: FontInstanceKey) -> Option<FontInstanceKey> {
        if self.instance_keys.contains_key(key) && !still_shared(
            self.instance_keys.remove(key),
            self.instance_keys[key],
        ) {
            Some(self.instance_keys[key])
        } else {
            None
        }
    }
}

} // verus!
