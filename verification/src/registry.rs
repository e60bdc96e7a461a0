//! The textures that hold decoded frames until a renderer uploads them.
use crate::types::{VideoFrameMetadata, VideoTextureHandle};
use std::collections::HashMap;
use vstd::prelude::*;

verus! {

/// The pixels of a texture.
#[derive(Debug, Clone)]
pub enum RegisteredVideoTextureSource {
    Rgba8 { width: u32, height: u32, pixels: Vec<u8> },
}

/// A texture with what is known of the frame in it.
#[derive(Debug, Clone)]
pub struct RegisteredVideoTexture {
    pub metadata: VideoFrameMetadata,
    pub source: RegisteredVideoTextureSource,
    pub producer_label: String,
    pub fallback_reason: Option<String>,
    pub revision: u64,
}

/// The textures of a runtime, each under a handle. A handle lasts until its texture is removed
/// or the registry is cleared; a new revision marks every change of a texture.
#[derive(Debug)]
pub struct VideoTextureRegistry {
    next_slot: u32,
    generation: u64,
    next_revision: u64,
    textures: HashMap<u128, RegisteredVideoTexture>,
}

/// What a [`VideoTextureRegistry`] holds.
#[verifier::ext_equal]
pub struct RegistryView {
    /// The slot of the next handle.
    pub next_slot: u32,
    /// The generation of the next handle.
    pub generation: u64,
    /// The next revision.
    pub next_revision: u64,
    /// The textures by their handles.
    pub textures: Map<VideoTextureHandle, RegisteredVideoTexture>,
}

/// `n` plus one, with 0 after the largest value.
pub open spec fn next_u64(n: u64) -> u64 {
    if n == u64::MAX {
        0
    } else {
        (n + 1) as u64
    }
}

/// `n` plus one, with 0 after the largest value.
pub open spec fn next_u32(n: u32) -> u32 {
    if n == u32::MAX {
        0
    } else {
        (n + 1) as u32
    }
}

impl RegistryView {
    /// A registry with nothing in it.
    pub open spec fn empty() -> RegistryView {
        RegistryView { next_slot: 0, generation: 0, next_revision: 0, textures: Map::empty() }
    }

    /// The handle that the next insertion gives out.
    pub open spec fn next_handle(self) -> VideoTextureHandle {
        VideoTextureHandle { slot: self.next_slot, generation: self.generation }
    }

    /// The registry with one revision used up.
    pub open spec fn bumped(self) -> RegistryView {
        RegistryView { next_revision: next_u64(self.next_revision), ..self }
    }

    /// The registry after an insertion.
    pub open spec fn inserted(
        self,
        metadata: VideoFrameMetadata,
        source: RegisteredVideoTextureSource,
        producer_label: String,
        fallback_reason: Option<String>,
    ) -> RegistryView {
        RegistryView {
            next_slot: next_u32(self.next_slot),
            next_revision: next_u64(self.next_revision),
            textures: self.textures.insert(
                self.next_handle(),
                RegisteredVideoTexture {
                    metadata,
                    source,
                    producer_label,
                    fallback_reason,
                    revision: self.next_revision,
                },
            ),
            ..self
        }
    }

    /// The registry after a replacement. A handle without a texture still uses a revision up.
    pub open spec fn replaced(
        self,
        handle: VideoTextureHandle,
        metadata: VideoFrameMetadata,
        source: RegisteredVideoTextureSource,
        producer_label: String,
        fallback_reason: Option<String>,
    ) -> RegistryView {
        if self.textures.contains_key(handle) {
            RegistryView {
                next_revision: next_u64(self.next_revision),
                textures: self.textures.insert(
                    handle,
                    RegisteredVideoTexture {
                        metadata,
                        source,
                        producer_label,
                        fallback_reason,
                        revision: self.next_revision,
                    },
                ),
                ..self
            }
        } else {
            self.bumped()
        }
    }

    /// The registry without the texture of `handle`.
    pub open spec fn removed(self, handle: VideoTextureHandle) -> RegistryView {
        RegistryView { textures: self.textures.remove(handle), ..self }
    }

    /// The registry after it was cleared.
    pub open spec fn cleared(self) -> RegistryView {
        RegistryView {
            next_slot: 0,
            generation: next_u64(self.generation),
            textures: Map::empty(),
            ..self
        }
    }

    /// Whether all textures belong to the current generation.
    pub open spec fn one_generation(self) -> bool {
        forall|handle: VideoTextureHandle| #[trigger]
            self.textures.contains_key(handle) ==> handle.generation == self.generation
    }

    /// Whether the slots of the current generation have not been used up: no texture has the slot
    /// of the next handle or one above it.
    pub open spec fn slots_left(self) -> bool {
        forall|handle: VideoTextureHandle| #[trigger]
            self.textures.contains_key(handle) ==> handle.slot < self.next_slot
    }

    /// Whether the revisions have not been used up: no texture has the next revision or one above
    /// it, and no two textures have the same one.
    pub open spec fn revisions_left(self) -> bool {
        &&& forall|handle: VideoTextureHandle| #[trigger]
            self.textures.contains_key(handle) ==> self.textures[handle].revision
                < self.next_revision
        &&& forall|a: VideoTextureHandle, b: VideoTextureHandle|
            #[trigger] self.textures.contains_key(a) && #[trigger] self.textures.contains_key(b) && a
                != b ==> self.textures[a].revision != self.textures[b].revision
    }
}

/// The number under which the texture of `handle` is kept.
spec fn key_of(handle: VideoTextureHandle) -> u128 {
    (handle.generation * 0x1_0000_0000 + handle.slot) as u128
}

fn texture_key(handle: &VideoTextureHandle) -> (key: u128)
    ensures
        key == key_of(*handle),
{
    handle.generation as u128 * 0x1_0000_0000 + handle.slot as u128
}

/// Different handles have different keys.
proof fn lemma_keys_distinct()
    ensures
        forall|a: VideoTextureHandle, b: VideoTextureHandle| #[trigger]
            key_of(a) == #[trigger] key_of(b) ==> a == b,
{
    assert forall|a: VideoTextureHandle, b: VideoTextureHandle| #[trigger]
        key_of(a) == #[trigger] key_of(b) implies a == b by {
        assert(a.generation * 0x1_0000_0000 + a.slot == b.generation * 0x1_0000_0000 + b.slot);
    }
}

impl View for VideoTextureRegistry {
    type V = RegistryView;

    closed spec fn view(&self) -> RegistryView {
        RegistryView {
            next_slot: self.next_slot,
            generation: self.generation,
            next_revision: self.next_revision,
            textures: Map::new(
                |handle: VideoTextureHandle| self.textures@.contains_key(key_of(handle)),
                |handle: VideoTextureHandle| self.textures@[key_of(handle)],
            ),
        }
    }
}

impl VideoTextureRegistry {
    /// A registry with nothing in it.
    pub fn new() -> (registry: Self)
        ensures
            registry@ == RegistryView::empty(),
    {
        let registry: VideoTextureRegistry = VideoTextureRegistry {
            next_slot: 0,
            generation: 0,
            next_revision: 0,
            textures: HashMap::new(),
        };
        assert(registry@ =~= RegistryView::empty());
        registry
    }

    /// Puts a texture in, under a new handle and with a new revision.
    pub fn insert(
        &mut self,
        metadata: VideoFrameMetadata,
        source: RegisteredVideoTextureSource,
        producer_label: String,
        fallback_reason: Option<String>,
    ) -> (handle: VideoTextureHandle)
        ensures
            handle == old(self)@.next_handle(),
            final(self)@ == old(self)@.inserted(metadata, source, producer_label, fallback_reason),
    {
        let revision: u64 = self.bump_revision();
        let handle: VideoTextureHandle = VideoTextureHandle {
            slot: self.next_slot,
            generation: self.generation,
        };
        self.next_slot = self.next_slot.wrapping_add(1);
        let key: u128 = texture_key(&handle);
        let texture: RegisteredVideoTexture = RegisteredVideoTexture {
            metadata,
            source,
            producer_label,
            fallback_reason,
            revision,
        };
        self.textures.insert(key, texture);
        proof {
            lemma_keys_distinct();
            assert(self@ =~= old(self)@.inserted(metadata, source, producer_label, fallback_reason));
        }
        handle
    }

    /// Puts another frame into the texture of `handle`, with a new revision. Gives `None` where
    /// the handle has no texture.
    pub fn replace(
        &mut self,
        handle: VideoTextureHandle,
        metadata: VideoFrameMetadata,
        source: RegisteredVideoTextureSource,
        producer_label: String,
        fallback_reason: Option<String>,
    ) -> (replaced: Option<()>)
        ensures
            replaced is Some <==> old(self)@.textures.contains_key(handle),
            final(self)@ == old(self)@.replaced(
                handle,
                metadata,
                source,
                producer_label,
                fallback_reason,
            ),
    {
        let revision: u64 = self.bump_revision();
        let key: u128 = texture_key(&handle);
        if !self.textures.contains_key(&key) {
            return None;
        }
        let texture: RegisteredVideoTexture = RegisteredVideoTexture {
            metadata,
            source,
            producer_label,
            fallback_reason,
            revision,
        };
        self.textures.insert(key, texture);
        proof {
            lemma_keys_distinct();
            assert(self@ =~= old(self)@.replaced(
                handle,
                metadata,
                source,
                producer_label,
                fallback_reason,
            ));
        }
        Some(())
    }

    /// The texture of `handle`.
    pub fn get(&self, handle: &VideoTextureHandle) -> (texture: Option<&RegisteredVideoTexture>)
        ensures
            match texture {
                Some(texture) => self@.textures.contains_pair(*handle, *texture),
                None => !self@.textures.contains_key(*handle),
            },
    {
        let key: u128 = texture_key(handle);
        self.textures.get(&key)
    }

    /// Takes the texture of `handle` out.
    pub fn remove(&mut self, handle: &VideoTextureHandle) -> (texture: Option<
        RegisteredVideoTexture,
    >)
        ensures
            match texture {
                Some(texture) => old(self)@.textures.contains_pair(*handle, texture),
                None => !old(self)@.textures.contains_key(*handle),
            },
            final(self)@ == old(self)@.removed(*handle),
    {
        let key: u128 = texture_key(handle);
        let texture: Option<RegisteredVideoTexture> = self.textures.remove(&key);
        proof {
            lemma_keys_distinct();
            assert(self@ =~= old(self)@.removed(*handle));
        }
        texture
    }

    /// Takes all textures out and starts a new generation of handles.
    pub fn clear(&mut self)
        ensures
            final(self)@ == old(self)@.cleared(),
    {
        self.textures.clear();
        self.generation = self.generation.wrapping_add(1);
        self.next_slot = 0;
        assert(self@ =~= old(self)@.cleared());
    }

    /// Uses the next revision up.
    pub(crate) fn bump_revision(&mut self) -> (revision: u64)
        ensures
            revision == old(self)@.next_revision,
            final(self)@ == old(self)@.bumped(),
    {
        let revision: u64 = self.next_revision;
        self.next_revision = self.next_revision.wrapping_add(1);
        assert(self@ =~= old(self)@.bumped());
        revision
    }
}

impl Default for VideoTextureRegistry {
    fn default() -> (registry: Self)
        ensures
            registry@ == RegistryView::empty(),
    {
        VideoTextureRegistry::new()
    }
}

/// An insertion gives out a handle that no texture has, and its texture is found under it, while
/// slots are left. All other textures stay as they are.
pub proof fn insert_gives_fresh_handle(
    registry: RegistryView,
    metadata: VideoFrameMetadata,
    source: RegisteredVideoTextureSource,
    producer_label: String,
    fallback_reason: Option<String>,
)
    requires
        registry.slots_left(),
    ensures
        !registry.textures.contains_key(registry.next_handle()),
        ({
            let after = registry.inserted(metadata, source, producer_label, fallback_reason);
            let texture = after.textures[registry.next_handle()];
            &&& after.textures.contains_key(registry.next_handle())
            &&& texture.metadata == metadata
            &&& texture.source == source
            &&& texture.producer_label == producer_label
            &&& texture.fallback_reason == fallback_reason
            &&& forall|handle: VideoTextureHandle| #[trigger]
                registry.textures.contains_key(handle) ==> after.textures.contains_pair(
                    handle,
                    registry.textures[handle],
                )
            &&& registry.next_slot < u32::MAX ==> after.slots_left()
        }),
{
}

/// A new registry has slots and revisions left, in one generation of handles, and every operation
/// keeps it so: a replacement, a removal and a clearing always, an insertion short of the last
/// slot; and where a revision is used up, short of the last revision.
pub proof fn operations_keep_registry_sound(
    registry: RegistryView,
    handle: VideoTextureHandle,
    metadata: VideoFrameMetadata,
    source: RegisteredVideoTextureSource,
    producer_label: String,
    fallback_reason: Option<String>,
)
    requires
        registry.one_generation(),
    ensures
        RegistryView::empty().one_generation(),
        RegistryView::empty().slots_left(),
        RegistryView::empty().revisions_left(),
        registry.inserted(metadata, source, producer_label, fallback_reason).one_generation(),
        registry.replaced(handle, metadata, source, producer_label, fallback_reason).one_generation(),
        registry.removed(handle).one_generation(),
        registry.cleared().one_generation(),
        registry.slots_left() ==> {
            &&& registry.next_slot < u32::MAX ==> registry.inserted(
                metadata,
                source,
                producer_label,
                fallback_reason,
            ).slots_left()
            &&& registry.replaced(
                handle,
                metadata,
                source,
                producer_label,
                fallback_reason,
            ).slots_left()
            &&& registry.removed(handle).slots_left()
            &&& registry.cleared().slots_left()
        },
        registry.revisions_left() ==> {
            &&& registry.next_revision < u64::MAX ==> registry.inserted(
                metadata,
                source,
                producer_label,
                fallback_reason,
            ).revisions_left()
            &&& registry.next_revision < u64::MAX ==> registry.replaced(
                handle,
                metadata,
                source,
                producer_label,
                fallback_reason,
            ).revisions_left()
            &&& registry.removed(handle).revisions_left()
            &&& registry.cleared().revisions_left()
        },
{
}

/// A handle of before a clearing finds nothing after it, not even once another texture is in.
pub proof fn cleared_handles_stay_dead(
    registry: RegistryView,
    handle: VideoTextureHandle,
    metadata: VideoFrameMetadata,
    source: RegisteredVideoTextureSource,
    producer_label: String,
    fallback_reason: Option<String>,
)
    requires
        registry.one_generation(),
        registry.textures.contains_key(handle),
    ensures
        !registry.cleared().textures.contains_key(handle),
        !registry.cleared().inserted(
            metadata,
            source,
            producer_label,
            fallback_reason,
        ).textures.contains_key(handle),
        forall|later: RegistryView|
            later.one_generation() && later.generation == registry.cleared().generation
                ==> !#[trigger] later.textures.contains_key(handle),
{
}

/// A replacement changes the revision of its texture, while revisions are left.
pub proof fn replacement_changes_revision(
    registry: RegistryView,
    handle: VideoTextureHandle,
    metadata: VideoFrameMetadata,
    source: RegisteredVideoTextureSource,
    producer_label: String,
    fallback_reason: Option<String>,
)
    requires
        registry.revisions_left(),
        registry.textures.contains_key(handle),
    ensures
        ({
            let after = registry.replaced(
                handle,
                metadata,
                source,
                producer_label,
                fallback_reason,
            );
            &&& after.textures.contains_key(handle)
            &&& after.textures[handle].revision > registry.textures[handle].revision
            &&& forall|other: VideoTextureHandle| #[trigger]
                registry.textures.contains_key(other) ==> after.textures[handle].revision
                    != registry.textures[other].revision
        }),
{
}

/// A change of a registry.
pub enum RegistryCall {
    Insert {
        metadata: VideoFrameMetadata,
        source: RegisteredVideoTextureSource,
        producer_label: String,
        fallback_reason: Option<String>,
    },
    Replace {
        handle: VideoTextureHandle,
        metadata: VideoFrameMetadata,
        source: RegisteredVideoTextureSource,
        producer_label: String,
        fallback_reason: Option<String>,
    },
    Remove { handle: VideoTextureHandle },
    Clear,
}

impl RegistryCall {
    /// The registry after the change.
    pub open spec fn applied(self, registry: RegistryView) -> RegistryView {
        match self {
            RegistryCall::Insert { metadata, source, producer_label, fallback_reason } => {
                registry.inserted(metadata, source, producer_label, fallback_reason)
            },
            RegistryCall::Replace { handle, metadata, source, producer_label, fallback_reason } => {
                registry.replaced(handle, metadata, source, producer_label, fallback_reason)
            },
            RegistryCall::Remove { handle } => registry.removed(handle),
            RegistryCall::Clear => registry.cleared(),
        }
    }

    /// Whether the change uses a revision up.
    pub open spec fn uses_revision(self) -> bool {
        self is Insert || self is Replace
    }

    /// Whether the change takes the texture of `handle` out.
    pub open spec fn drops(self, handle: VideoTextureHandle) -> bool {
        self is Clear || self == (RegistryCall::Remove { handle })
    }
}

/// A new registry after `calls`.
pub open spec fn after_calls(calls: Seq<RegistryCall>) -> RegistryView
    decreases calls.len(),
{
    if calls.len() == 0 {
        RegistryView::empty()
    } else {
        calls.last().applied(after_calls(calls.drop_last()))
    }
}

/// How many of `calls` clear the registry.
pub open spec fn clearings(calls: Seq<RegistryCall>) -> int
    decreases calls.len(),
{
    if calls.len() == 0 {
        0
    } else if calls.last() is Clear {
        clearings(calls.drop_last()) + 1
    } else {
        clearings(calls.drop_last())
    }
}

/// How many of `calls` insert a texture, behind the last that clears the registry.
pub open spec fn insertions(calls: Seq<RegistryCall>) -> int
    decreases calls.len(),
{
    if calls.len() == 0 || calls.last() is Clear {
        0
    } else if calls.last() is Insert {
        insertions(calls.drop_last()) + 1
    } else {
        insertions(calls.drop_last())
    }
}

/// How many of `calls` use a revision up.
pub open spec fn revisions(calls: Seq<RegistryCall>) -> int
    decreases calls.len(),
{
    if calls.len() == 0 {
        0
    } else if calls.last().uses_revision() {
        revisions(calls.drop_last()) + 1
    } else {
        revisions(calls.drop_last())
    }
}

/// Handles and revisions are counted: the slot of the next handle is the number of insertions since
/// the last clearing, its generation the number of clearings, and the next revision the number of
/// all that were used up, whatever was removed and cleared on the way. Each count comes round once
/// its numbers are used up.
pub proof fn handles_and_revisions_are_counted(calls: Seq<RegistryCall>)
    ensures
        0 <= insertions(calls) <= calls.len(),
        0 <= clearings(calls) <= calls.len(),
        0 <= revisions(calls) <= calls.len(),
        after_calls(calls).next_slot == insertions(calls) % 0x1_0000_0000,
        after_calls(calls).generation == clearings(calls) % 0x1_0000_0000_0000_0000,
        after_calls(calls).next_revision == revisions(calls) % 0x1_0000_0000_0000_0000,
        after_calls(calls).one_generation(),
    decreases calls.len(),
{
    if calls.len() > 0 {
        handles_and_revisions_are_counted(calls.drop_last());
    }
}

/// Of two places in a history the later one has no fewer clearings and revisions behind it; where it
/// has as many clearings, it has no fewer insertions.
proof fn lemma_counts_grow(calls: Seq<RegistryCall>, i: int, j: int)
    requires
        0 <= i < j <= calls.len(),
    ensures
        clearings(calls.take(i)) <= clearings(calls.take(j)),
        revisions(calls.take(i)) + if calls[i].uses_revision() {
            1int
        } else {
            0
        } <= revisions(calls.take(j)),
        clearings(calls.take(i)) == clearings(calls.take(j)) ==> insertions(calls.take(i))
            + if calls[i] is Insert {
            1int
        } else {
            0
        } <= insertions(calls.take(j)),
    decreases j - i,
{
    assert(calls.take(j).drop_last() =~= calls.take(j - 1));
    assert(calls.take(j).last() == calls[j - 1]);
    if i < j - 1 {
        lemma_counts_grow(calls, i, j - 1);
    }
}

/// A handle is given out once. Two insertions of a history give out different handles, also where
/// the first texture was removed, replaced or cleared between them, short of as many clearings as
/// there are generations and, without a clearing between them, of as many insertions as there are
/// slots.
pub proof fn handles_are_given_out_once(calls: Seq<RegistryCall>, i: int, j: int)
    requires
        0 <= i < j < calls.len(),
        calls[i] is Insert,
        calls[j] is Insert,
        clearings(calls.take(j)) - clearings(calls.take(i)) <= u64::MAX,
        clearings(calls.take(j)) == clearings(calls.take(i)) ==> insertions(calls.take(j))
            - insertions(calls.take(i)) <= u32::MAX,
    ensures
        after_calls(calls.take(i)).next_handle() != after_calls(calls.take(j)).next_handle(),
{
    lemma_counts_grow(calls, i, j);
    handles_and_revisions_are_counted(calls.take(i));
    handles_and_revisions_are_counted(calls.take(j));
}

/// A texture that was removed or cleared is gone for good: its handle finds nothing again, whatever
/// comes later, as long as handles are given out once.
pub proof fn dropped_handle_stays_dead(calls: Seq<RegistryCall>, i: int, k: int)
    requires
        0 <= i < k < calls.len(),
        calls[i] is Insert,
        calls[k].drops(after_calls(calls.take(i)).next_handle()),
        clearings(calls) - clearings(calls.take(i)) <= u64::MAX,
        forall|j: int|
            i <= j <= calls.len() && #[trigger] clearings(calls.take(j)) == clearings(calls.take(i))
                ==> insertions(calls.take(j)) - insertions(calls.take(i)) <= u32::MAX,
    ensures
        !after_calls(calls).textures.contains_key(after_calls(calls.take(i)).next_handle()),
    decreases calls.len(),
{
    let shorter = calls.drop_last();
    let handle = after_calls(calls.take(i)).next_handle();
    let last = calls.len() - 1;
    assert(calls.take(last) =~= shorter);
    assert(shorter.take(i) =~= calls.take(i));
    if k < last {
        assert forall|j: int|
            i <= j <= shorter.len() && #[trigger] clearings(shorter.take(j)) == clearings(
                shorter.take(i),
            ) implies insertions(shorter.take(j)) - insertions(shorter.take(i)) <= u32::MAX by {
            assert(shorter.take(j) =~= calls.take(j));
            assert(clearings(calls.take(j)) == clearings(calls.take(i)));
        }
        dropped_handle_stays_dead(shorter, i, k);
        if calls[last] is Insert {
            assert(clearings(calls.take(last)) <= clearings(calls));
            if clearings(calls.take(last)) == clearings(calls.take(i)) {
                assert(insertions(calls.take(last)) - insertions(calls.take(i)) <= u32::MAX);
            }
            handles_are_given_out_once(calls, i, last);
        }
    }
}

/// Revisions grow over a whole history, also across removals and clearings, short of the last
/// revision: a change that uses one up gets a larger one than every change before it.
pub proof fn revisions_grow(calls: Seq<RegistryCall>, i: int, j: int)
    requires
        0 <= i < j < calls.len(),
        calls[i].uses_revision(),
        calls[j].uses_revision(),
        revisions(calls.take(j)) <= u64::MAX,
    ensures
        after_calls(calls.take(i)).next_revision < after_calls(calls.take(j)).next_revision,
        after_calls(calls.take(i)).next_revision == revisions(calls.take(i)),
{
    lemma_counts_grow(calls, i, j);
    handles_and_revisions_are_counted(calls.take(i));
    handles_and_revisions_are_counted(calls.take(j));
}

/// Every texture of a history has the revision of a change that used it up, and no two textures have
/// the same one, short of the last revision.
pub proof fn textures_keep_their_revisions_apart(calls: Seq<RegistryCall>)
    requires
        revisions(calls) <= u64::MAX,
    ensures
        after_calls(calls).revisions_left(),
    decreases calls.len(),
{
    if calls.len() > 0 {
        let before = after_calls(calls.drop_last());
        handles_and_revisions_are_counted(calls.drop_last());
        textures_keep_their_revisions_apart(calls.drop_last());
    }
}

/// An insertion puts the texture in as it is given, under the handle of the next slot and with the
/// next revision, and leaves all other textures alone. It uses up one slot and one revision.
pub proof fn inserted_texture_is_as_given(
    registry: RegistryView,
    metadata: VideoFrameMetadata,
    source: RegisteredVideoTextureSource,
    producer_label: String,
    fallback_reason: Option<String>,
    other: VideoTextureHandle,
)
    ensures
        ({
            let after = registry.inserted(metadata, source, producer_label, fallback_reason);
            let handle = registry.next_handle();
            let texture = after.textures[handle];
            &&& handle.slot == registry.next_slot
            &&& handle.generation == registry.generation
            &&& after.textures.dom().contains(handle)
            &&& texture.metadata == metadata
            &&& texture.source == source
            &&& texture.producer_label == producer_label
            &&& texture.fallback_reason == fallback_reason
            &&& texture.revision == registry.next_revision
            &&& registry.next_slot < u32::MAX ==> after.next_slot == registry.next_slot + 1
            &&& registry.next_slot == u32::MAX ==> after.next_slot == 0
            &&& registry.next_revision < u64::MAX ==> after.next_revision == registry.next_revision
                + 1
            &&& registry.next_revision == u64::MAX ==> after.next_revision == 0
            &&& after.generation == registry.generation
            &&& other != handle ==> {
                &&& after.textures.dom().contains(other) <==> registry.textures.dom().contains(other)
                &&& after.textures.dom().contains(other) ==> after.textures[other]
                    == registry.textures[other]
            }
        }),
{
}

/// A replacement puts the texture in as it is given, under the same handle and with the next
/// revision, and leaves all other textures alone; without a texture of that handle it puts nothing
/// in. It uses up one revision either way, and no slot.
pub proof fn replaced_texture_is_as_given(
    registry: RegistryView,
    handle: VideoTextureHandle,
    metadata: VideoFrameMetadata,
    source: RegisteredVideoTextureSource,
    producer_label: String,
    fallback_reason: Option<String>,
    other: VideoTextureHandle,
)
    ensures
        ({
            let after = registry.replaced(
                handle,
                metadata,
                source,
                producer_label,
                fallback_reason,
            );
            let texture = after.textures[handle];
            &&& after.textures.dom() == registry.textures.dom()
            &&& registry.textures.dom().contains(handle) ==> {
                &&& texture.metadata == metadata
                &&& texture.source == source
                &&& texture.producer_label == producer_label
                &&& texture.fallback_reason == fallback_reason
                &&& texture.revision == registry.next_revision
            }
            &&& other != handle && registry.textures.dom().contains(other) ==> after.textures[other]
                == registry.textures[other]
            &&& registry.next_revision < u64::MAX ==> after.next_revision == registry.next_revision
                + 1
            &&& registry.next_revision == u64::MAX ==> after.next_revision == 0
            &&& after.next_slot == registry.next_slot
            &&& after.generation == registry.generation
        }),
{
    let after = registry.replaced(handle, metadata, source, producer_label, fallback_reason);
    assert(after.textures.dom() =~= registry.textures.dom());
}

/// A removal takes the texture of its handle out and leaves all other textures alone. A clearing takes
/// all out, starts with the first slot again and goes on to the next generation. Neither uses up a
/// revision, and to use one up changes nothing else.
pub proof fn removal_and_clearing_take_textures_out(
    registry: RegistryView,
    handle: VideoTextureHandle,
    other: VideoTextureHandle,
)
    ensures
        ({
            let after = registry.removed(handle);
            &&& !after.textures.dom().contains(handle)
            &&& other != handle ==> {
                &&& after.textures.dom().contains(other) <==> registry.textures.dom().contains(other)
                &&& after.textures.dom().contains(other) ==> after.textures[other]
                    == registry.textures[other]
            }
            &&& after.next_slot == registry.next_slot
            &&& after.generation == registry.generation
            &&& after.next_revision == registry.next_revision
        }),
        ({
            let after = registry.cleared();
            &&& !after.textures.dom().contains(other)
            &&& after.next_slot == 0
            &&& registry.generation < u64::MAX ==> after.generation == registry.generation + 1
            &&& registry.generation == u64::MAX ==> after.generation == 0
            &&& after.next_revision == registry.next_revision
        }),
        ({
            let after = registry.bumped();
            &&& after.textures == registry.textures
            &&& after.next_slot == registry.next_slot
            &&& after.generation == registry.generation
            &&& registry.next_revision < u64::MAX ==> after.next_revision == registry.next_revision
                + 1
            &&& registry.next_revision == u64::MAX ==> after.next_revision == 0
        }),
{
}

/// A new registry has no textures, and starts all its numbers with 0.
pub proof fn new_registry_holds_nothing(handle: VideoTextureHandle)
    ensures
        !RegistryView::empty().textures.dom().contains(handle),
        RegistryView::empty().next_slot == 0,
        RegistryView::empty().generation == 0,
        RegistryView::empty().next_revision == 0,
{
}

} // verus!
