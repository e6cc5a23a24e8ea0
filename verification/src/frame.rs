use crate::gi::graph::PassDecl;
use crate::gi::graph::ResourceRef;
use crate::gi::graph::TextureFormat;
use crate::gi::graph::TextureHandle;
use crate::text::str_equal;
use vstd::prelude::*;

verus! {

/// Handle of a graph buffer.
#[derive(Clone, Copy, Debug, PartialEq, Eq, Structural)]
pub struct BufferHandle(pub u32);

/// A texture published under a slot name, with its format.
#[derive(Clone, Copy, Debug, PartialEq, Eq, Structural)]
pub struct TextureSlot {
    pub handle: TextureHandle,
    pub format: TextureFormat,
}

impl TextureSlot {
    pub fn new(handle: TextureHandle, format: TextureFormat) -> (r: TextureSlot)
        ensures
            r == (TextureSlot { handle, format }),
    {
        TextureSlot { handle, format }
    }

    pub fn handle(self) -> (r: TextureHandle)
        ensures
            r == self.handle,
    {
        self.handle
    }

    pub fn format(self) -> (r: TextureFormat)
        ensures
            r == self.format,
    {
        self.format
    }
}

/// What a slot name holds: a texture or a buffer.
#[derive(Clone, Copy, Debug, PartialEq, Eq, Structural)]
pub enum SlotResource {
    Texture(TextureSlot),
    Buffer(BufferHandle),
}

/// The resource that the last entry named `name` holds.
pub open spec fn lookup(entries: Seq<(String, SlotResource)>, name: Seq<char>) -> Option<SlotResource>
    decreases entries.len(),
{
    if entries.len() == 0 {
        None
    } else if entries.last().0@ == name {
        Some(entries.last().1)
    } else {
        lookup(entries.drop_last(), name)
    }
}

pub open spec fn distinct_names(entries: Seq<(String, SlotResource)>) -> bool {
    forall|i: int, j: int|
        0 <= i < j < entries.len() ==> (#[trigger] entries[i]).0@ != (#[trigger] entries[j]).0@
}

/// Named texture and buffer slots that the passes of a frame publish for
/// one another. Each name holds at most one resource.
#[derive(Debug)]
pub struct ResourceSlotMap {
    pub entries: Vec<(String, SlotResource)>,
}

/// Name of the slot that holds the color texture the next pass reads.
pub const CURRENT_COLOR: &'static str = "current_color";

pub open spec fn texture_of(r: Option<SlotResource>) -> Option<TextureSlot> {
    match r {
        Some(SlotResource::Texture(slot)) => Some(slot),
        _ => None,
    }
}

pub open spec fn buffer_of(r: Option<SlotResource>) -> Option<BufferHandle> {
    match r {
        Some(SlotResource::Buffer(handle)) => Some(handle),
        _ => None,
    }
}

proof fn lemma_lookup_absent(entries: Seq<(String, SlotResource)>, name: Seq<char>)
    requires
        forall|i: int| 0 <= i < entries.len() ==> (#[trigger] entries[i]).0@ != name,
    ensures
        lookup(entries, name) is None,
    decreases entries.len(),
{
    if entries.len() > 0 {
        lemma_lookup_absent(entries.drop_last(), name);
    }
}

proof fn lemma_lookup_at(entries: Seq<(String, SlotResource)>, i: int)
    requires
        distinct_names(entries),
        0 <= i < entries.len(),
    ensures
        lookup(entries, entries[i].0@) == Some(entries[i].1),
    decreases entries.len(),
{
    if i < entries.len() - 1 {
        assert(entries.drop_last()[i] == entries[i]);
        lemma_lookup_at(entries.drop_last(), i);
    }
}

proof fn lemma_lookup_update(
    entries: Seq<(String, SlotResource)>,
    i: int,
    entry: (String, SlotResource),
    other: Seq<char>,
)
    requires
        0 <= i < entries.len(),
        entry.0@ == entries[i].0@,
        other != entry.0@,
    ensures
        lookup(entries.update(i, entry), other) == lookup(entries, other),
    decreases entries.len(),
{
    let updated = entries.update(i, entry);
    if i < entries.len() - 1 {
        assert(updated.drop_last() =~= entries.drop_last().update(i, entry));
        lemma_lookup_update(entries.drop_last(), i, entry, other);
    } else {
        assert(updated.drop_last() =~= entries.drop_last());
    }
}

impl ResourceSlotMap {
    pub open spec fn wf(&self) -> bool {
        distinct_names(self.entries@)
    }

    /// The resource held under `name`.
    pub open spec fn get_spec(&self, name: Seq<char>) -> Option<SlotResource> {
        lookup(self.entries@, name)
    }

    pub fn new() -> (r: ResourceSlotMap)
        ensures
            r.wf(),
            forall|name: Seq<char>| r.get_spec(name) is None,
    {
        ResourceSlotMap { entries: Vec::new() }
    }

    fn find(&self, name: &str) -> (r: Option<usize>)
        requires
            self.wf(),
        ensures
            match r {
                Some(i) => i < self.entries@.len() && self.entries@[i as int].0@ == name@,
                None => forall|i: int|
                    0 <= i < self.entries@.len() ==> (#[trigger] self.entries@[i]).0@ != name@,
            },
    {
        let mut i: usize = 0;
        while i < self.entries.len()
            invariant
                i <= self.entries.len(),
                forall|j: int| 0 <= j < i ==> (#[trigger] self.entries@[j]).0@ != name@,
            decreases self.entries.len() - i,
        {
            if str_equal(self.entries[i].0.as_str(), name) {
                return Some(i);
            }
            i = i + 1;
        }
        None
    }

    /// The resource held under `name`.
    pub fn resource(&self, name: &str) -> (r: Option<SlotResource>)
        requires
            self.wf(),
        ensures
            r == self.get_spec(name@),
    {
        match self.find(name) {
            Some(i) => {
                proof {
                    lemma_lookup_at(self.entries@, i as int);
                }
                Some(self.entries[i].1)
            },
            None => {
                proof {
                    lemma_lookup_absent(self.entries@, name@);
                }
                None
            },
        }
    }

    pub fn contains(&self, name: &str) -> (r: bool)
        requires
            self.wf(),
        ensures
            r == self.get_spec(name@) is Some,
    {
        self.resource(name).is_some()
    }

    /// The texture held under `name`, if `name` holds a texture.
    pub fn texture(&self, name: &str) -> (r: Option<TextureSlot>)
        requires
            self.wf(),
        ensures
            r == texture_of(self.get_spec(name@)),
    {
        match self.resource(name) {
            Some(SlotResource::Texture(slot)) => Some(slot),
            _ => None,
        }
    }

    /// The buffer held under `name`, if `name` holds a buffer.
    pub fn buffer(&self, name: &str) -> (r: Option<BufferHandle>)
        requires
            self.wf(),
        ensures
            r == buffer_of(self.get_spec(name@)),
    {
        match self.resource(name) {
            Some(SlotResource::Buffer(handle)) => Some(handle),
            _ => None,
        }
    }

    /// Puts `resource` under `name`, replacing what it held; returns what
    /// it held.
    pub fn insert(&mut self, name: &str, resource: SlotResource) -> (previous: Option<SlotResource>)
        requires
            old(self).wf(),
        ensures
            final(self).wf(),
            previous == old(self).get_spec(name@),
            final(self).get_spec(name@) == Some(resource),
            forall|other: Seq<char>|
                other != name@ ==> #[trigger] final(self).get_spec(other) == old(self).get_spec(
                    other,
                ),
    {
        let entry = (name.to_owned(), resource);
        match self.find(name) {
            Some(i) => {
                let previous = self.entries[i].1;
                let ghost before = self.entries@;
                proof {
                    lemma_lookup_at(before, i as int);
                }
                self.entries.set(i, entry);
                proof {
                    assert(self.entries@ == before.update(i as int, entry));
                    assert(distinct_names(self.entries@)) by {
                        assert forall|a: int, b: int|
                            0 <= a < b < self.entries@.len() implies (
                        #[trigger] self.entries@[a]).0@ != (#[trigger] self.entries@[b]).0@ by {
                            assert(before[a].0@ != before[b].0@);
                        }
                    }
                    lemma_lookup_at(self.entries@, i as int);
                    assert forall|other: Seq<char>| other != name@ implies #[trigger] lookup(
                        self.entries@,
                        other,
                    ) == lookup(before, other) by {
                        lemma_lookup_update(before, i as int, entry, other);
                    }
                }
                Some(previous)
            },
            None => {
                let ghost before = self.entries@;
                proof {
                    lemma_lookup_absent(before, name@);
                }
                self.entries.push(entry);
                proof {
                    assert(self.entries@.drop_last() =~= before);
                    assert(distinct_names(self.entries@)) by {
                        assert forall|a: int, b: int|
                            0 <= a < b < self.entries@.len() implies (
                        #[trigger] self.entries@[a]).0@ != (#[trigger] self.entries@[b]).0@ by {
                            if b == before.len() {
                                assert(before[a].0@ != name@);
                            } else {
                                assert(before[a].0@ != before[b].0@);
                            }
                        }
                    }
                }
                None
            },
        }
    }

    /// Puts a texture under `name`; returns the texture it held, if it held one.
    pub fn insert_texture(&mut self, name: &str, handle: TextureHandle, format: TextureFormat) -> (r:
        Option<TextureSlot>)
        requires
            old(self).wf(),
        ensures
            final(self).wf(),
            r == texture_of(old(self).get_spec(name@)),
            final(self).get_spec(name@) == Some(SlotResource::Texture(TextureSlot { handle, format })),
            forall|other: Seq<char>|
                other != name@ ==> #[trigger] final(self).get_spec(other) == old(self).get_spec(
                    other,
                ),
    {
        match self.insert(name, SlotResource::Texture(TextureSlot::new(handle, format))) {
            Some(SlotResource::Texture(slot)) => Some(slot),
            _ => None,
        }
    }

    /// Puts a buffer under `name`; returns the buffer it held, if it held one.
    pub fn insert_buffer(&mut self, name: &str, handle: BufferHandle) -> (r: Option<BufferHandle>)
        requires
            old(self).wf(),
        ensures
            final(self).wf(),
            r == buffer_of(old(self).get_spec(name@)),
            final(self).get_spec(name@) == Some(SlotResource::Buffer(handle)),
            forall|other: Seq<char>|
                other != name@ ==> #[trigger] final(self).get_spec(other) == old(self).get_spec(
                    other,
                ),
    {
        match self.insert(name, SlotResource::Buffer(handle)) {
            Some(SlotResource::Buffer(previous)) => Some(previous),
            _ => None,
        }
    }

    pub fn set_current_color(&mut self, handle: TextureHandle, format: TextureFormat)
        requires
            old(self).wf(),
        ensures
            final(self).wf(),
            final(self).get_spec(CURRENT_COLOR@) == Some(
                SlotResource::Texture(TextureSlot { handle, format }),
            ),
            forall|other: Seq<char>|
                other != CURRENT_COLOR@ ==> #[trigger] final(self).get_spec(other) == old(
                    self,
                ).get_spec(other),
    {
        let _ = self.insert_texture(CURRENT_COLOR, handle, format);
    }

    pub fn current_color(&self) -> (r: Option<TextureSlot>)
        requires
            self.wf(),
        ensures
            r == texture_of(self.get_spec(CURRENT_COLOR@)),
    {
        self.texture(CURRENT_COLOR)
    }
}

/// The slots and surface of one phase of a frame.
#[derive(Debug)]
pub struct PhaseState {
    pub surface_format: TextureFormat,
    pub has_surface: bool,
    pub slots: ResourceSlotMap,
}

impl PhaseState {
    pub fn new(surface_format: TextureFormat, has_surface: bool) -> (r: PhaseState)
        ensures
            r.surface_format == surface_format,
            r.has_surface == has_surface,
            r.slots.wf(),
            forall|name: Seq<char>| r.slots.get_spec(name) is None,
    {
        PhaseState { surface_format, has_surface, slots: ResourceSlotMap::new() }
    }

    pub fn with_slots(surface_format: TextureFormat, has_surface: bool, slots: ResourceSlotMap) -> (r:
        PhaseState)
        ensures
            r.surface_format == surface_format,
            r.has_surface == has_surface,
            r.slots == slots,
    {
        PhaseState { surface_format, has_surface, slots }
    }

    pub fn surface_format(&self) -> (r: TextureFormat)
        ensures
            r == self.surface_format,
    {
        self.surface_format
    }

    pub fn has_surface(&self) -> (r: bool)
        ensures
            r == self.has_surface,
    {
        self.has_surface
    }

    pub fn current_color(&self) -> (r: Option<TextureSlot>)
        requires
            self.slots.wf(),
        ensures
            r == texture_of(self.slots.get_spec(CURRENT_COLOR@)),
    {
        self.slots.current_color()
    }

    pub fn set_current_color(&mut self, handle: TextureHandle, format: TextureFormat)
        requires
            old(self).slots.wf(),
        ensures
            final(self).slots.wf(),
            final(self).surface_format == old(self).surface_format,
            final(self).has_surface == old(self).has_surface,
            final(self).slots.get_spec(CURRENT_COLOR@) == Some(
                SlotResource::Texture(TextureSlot { handle, format }),
            ),
            forall|other: Seq<char>|
                other != CURRENT_COLOR@ ==> #[trigger] final(self).slots.get_spec(other) == old(
                    self,
                ).slots.get_spec(other),
    {
        self.slots.set_current_color(handle, format);
    }

    pub fn texture_slot(&self, name: &str) -> (r: Option<TextureSlot>)
        requires
            self.slots.wf(),
        ensures
            r == texture_of(self.slots.get_spec(name@)),
    {
        self.slots.texture(name)
    }

    pub fn set_texture_slot(&mut self, name: &str, handle: TextureHandle, format: TextureFormat) -> (r:
        Option<TextureSlot>)
        requires
            old(self).slots.wf(),
        ensures
            final(self).slots.wf(),
            final(self).surface_format == old(self).surface_format,
            final(self).has_surface == old(self).has_surface,
            r == texture_of(old(self).slots.get_spec(name@)),
            final(self).slots.get_spec(name@) == Some(
                SlotResource::Texture(TextureSlot { handle, format }),
            ),
            forall|other: Seq<char>|
                other != name@ ==> #[trigger] final(self).slots.get_spec(other) == old(
                    self,
                ).slots.get_spec(other),
    {
        self.slots.insert_texture(name, handle, format)
    }

    pub fn into_slots(self) -> (r: ResourceSlotMap)
        ensures
            r == self.slots,
    {
        self.slots
    }
}

/// Pass and draw-call counts of one executed frame.
#[derive(Debug, Clone, Copy, Default, PartialEq, Eq)]
pub struct FrameExecutionStats {
    pub passes: usize,
    pub draw_calls: usize,
}

/// The textures (whole, not subresources) among `refs`, in order.
pub open spec fn textures_of(refs: Seq<ResourceRef>) -> Seq<TextureHandle>
    decreases refs.len(),
{
    if refs.len() == 0 {
        Seq::empty()
    } else {
        let rest = textures_of(refs.drop_last());
        match refs.last() {
            ResourceRef::Texture(h) => rest.push(h),
            _ => rest,
        }
    }
}

proof fn lemma_textures_prefix(s: Seq<ResourceRef>, k: int)
    requires
        0 <= k <= s.len(),
    ensures
        textures_of(s.take(k)).len() <= textures_of(s).len(),
        forall|j: int|
            0 <= j < textures_of(s.take(k)).len() ==> textures_of(s.take(k))[j] == textures_of(
                s,
            )[j],
    decreases s.len(),
{
    if k == s.len() {
        assert(s.take(k) =~= s);
    } else {
        let t = s.drop_last();
        assert(s.take(k) =~= t.take(k));
        lemma_textures_prefix(t, k);
    }
}

fn nth_texture(refs: &Vec<ResourceRef>, index: usize) -> (r: TextureHandle)
    requires
        index < textures_of(refs@).len(),
    ensures
        r == textures_of(refs@)[index as int],
{
    let mut i: usize = 0;
    let mut seen: usize = 0;
    assert(refs@.take(0) =~= Seq::<ResourceRef>::empty());
    while i < refs.len()
        invariant
            i <= refs.len(),
            index < textures_of(refs@).len(),
            seen == textures_of(refs@.take(i as int)).len(),
            seen <= index,
        decreases refs.len() - i,
    {
        assert(refs@.take(i + 1).drop_last() =~= refs@.take(i as int));
        assert(refs@.take(i + 1).last() == refs@[i as int]);
        proof {
            lemma_textures_prefix(refs@, i as int + 1);
        }
        match refs[i] {
            ResourceRef::Texture(h) => {
                if seen == index {
                    return h;
                }
                seen = seen + 1;
            },
            _ => {},
        }
        i = i + 1;
    }
    proof {
        assert(refs@.take(i as int) =~= refs@);
        assert(false);
    }
    TextureHandle(0)
}

/// The `index`-th whole texture that `pass` reads.
pub fn pass_nth_read_texture(pass: &PassDecl, index: usize) -> (r: TextureHandle)
    requires
        index < textures_of(pass.reads@).len(),
    ensures
        r == textures_of(pass.reads@)[index as int],
{
    nth_texture(&pass.reads, index)
}

/// The first whole texture that `pass` reads.
pub fn pass_first_read_texture(pass: &PassDecl) -> (r: TextureHandle)
    requires
        0 < textures_of(pass.reads@).len(),
    ensures
        r == textures_of(pass.reads@)[0],
{
    nth_texture(&pass.reads, 0)
}

/// The first whole texture that `pass` writes.
pub fn pass_first_write_texture(pass: &PassDecl) -> (r: TextureHandle)
    requires
        0 < textures_of(pass.writes@).len(),
    ensures
        r == textures_of(pass.writes@)[0],
{
    nth_texture(&pass.writes, 0)
}

} // verus!
