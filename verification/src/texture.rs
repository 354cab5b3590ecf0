//! Texture-handle bookkeeping.  Live textures sit in a generational slot
//! arena; a managed handle refers to its arena entry by key, a weak
//! handle carries the key without keeping the entry alive, and an
//! unmanaged handle carries a raw backend id with no bookkeeping at all.
//!
//! The arena is `slotmap::SlotMap`; keys travel in their 64-bit FFI form.

use vstd::prelude::*;

use slotmap::DefaultKey;
use slotmap::SlotMap;

verus! {

/// The slot arena itself, held opaquely: Verus sees its contents only
/// through [`arena_entries`] and the trusted accessors below.
#[verifier::external_body]
pub struct TexArena {
    map: SlotMap<DefaultKey, (u64, u32, u32)>,
}

/// What a texture arena holds: for each live key, in its 64-bit FFI
/// form, the backend texture id and the pixel size.
pub uninterp spec fn arena_entries(m: TexArena) -> Map<u64, (u64, u32, u32)>;

/// Relies on `SlotMap::new`: a fresh arena holds nothing.
#[verifier::external_body]
fn arena_new() -> (res: TexArena)
    ensures
        arena_entries(res).dom() =~= Set::<u64>::empty(),
{
    TexArena { map: SlotMap::new() }
}

/// Relies on `SlotMap::insert`, which stores the value under a fresh key
/// and panics only on a full arena, and on `KeyData::as_ffi`, which
/// round-trips through `from_ffi`.
#[verifier::external_body]
fn arena_insert(m: &mut TexArena, v: (u64, u32, u32)) -> (k: u64)
    requires
        arena_entries(*old(m)).dom().finite(),
        arena_entries(*old(m)).dom().len() < 0xffff_fffe,
    ensures
        !arena_entries(*old(m)).contains_key(k),
        arena_entries(*final(m)) == arena_entries(*old(m)).insert(k, v),
{
    let key: DefaultKey = m.map.insert(v);
    slotmap::Key::data(&key).as_ffi()
}

/// Relies on `SlotMap::get` and `KeyData::from_ffi`: a key in its FFI
/// form refers to its entry as long as the entry lives.  Of a key that
/// never came from this arena nothing is promised — `from_ffi` calls such
/// input unspecified.
#[verifier::external_body]
fn arena_get(m: &TexArena, k: u64) -> (r: Option<(u64, u32, u32)>)
    ensures
        arena_entries(*m).contains_key(k) ==> r == Some(arena_entries(*m)[k]),
{
    m.map.get(DefaultKey::from(slotmap::KeyData::from_ffi(k))).copied()
}

/// Relies on `SlotMap::remove` and `KeyData::from_ffi`: removing a live
/// key returns its entry and frees its slot.  Of a key that never came
/// from this arena nothing is promised.
#[verifier::external_body]
fn arena_remove(m: &mut TexArena, k: u64) -> (r: Option<(u64, u32, u32)>)
    ensures
        arena_entries(*old(m)).contains_key(k) ==> r == Some(arena_entries(*old(m))[k])
            && arena_entries(*final(m)) == arena_entries(*old(m)).remove(k),
{
    m.map.remove(DefaultKey::from(slotmap::KeyData::from_ffi(k)))
}

/// Relies on `SlotMap::len`: the number of live entries, counted in a
/// machine word.
#[verifier::external_body]
fn arena_len(m: &TexArena) -> (res: usize)
    requires
        arena_entries(*m).dom().finite(),
    ensures
        res == arena_entries(*m).dom().len(),
{
    m.map.len()
}

/// A handle to a texture: managed (a registry key that stands for
/// ownership), weak (a key without ownership), or unmanaged (a raw
/// backend id, with no guarantee the texture still exists).
#[derive(Clone, Copy, Debug, PartialEq, Eq, Structural)]
pub enum TextureHandle {
    Managed(u64),
    ManagedWeak(u64),
    Unmanaged(u64),
}

/// A texture, held through one of the three handle kinds.
#[derive(Clone, Copy, Debug, PartialEq, Eq, Structural)]
pub struct Texture2D {
    pub texture: TextureHandle,
}

/// The registry of live textures: backend id and pixel size per key.
pub struct TexturesContext {
    textures: TexArena,
}

impl TexturesContext {
    /// The live entries, keyed by FFI key.
    pub closed spec fn entries(&self) -> Map<u64, (u64, u32, u32)> {
        arena_entries(self.textures)
    }

    /// An empty registry.
    pub fn new() -> (r: TexturesContext)
        ensures
            r.entries() == Map::<u64, (u64, u32, u32)>::empty(),
            r.entries().dom().finite(),
    {
        let r = TexturesContext { textures: arena_new() };
        proof {
            assert(r.entries().dom() =~= Set::<u64>::empty());
        }
        r
    }

    /// Registers a texture and hands back the managed handle that owns
    /// the new entry.
    pub fn store_texture(&mut self, texture: (u64, u32, u32)) -> (h: TextureHandle)
        requires
            old(self).entries().dom().finite(),
            old(self).entries().dom().len() < 0xffff_fffe,
        ensures
            h matches TextureHandle::Managed(k) && !old(self).entries().contains_key(k)
                && final(self).entries() == old(self).entries().insert(k, texture),
            final(self).entries().dom().finite(),
    {
        let k = arena_insert(&mut self.textures, texture);
        TextureHandle::Managed(k)
    }

    /// Looks a live key up; the entry it refers to, while it lives.
    pub fn texture(&self, texture: u64) -> (r: Option<(u64, u32, u32)>)
        ensures
            self.entries().contains_key(texture) ==> r == Some(self.entries()[texture]),
    {
        arena_get(&self.textures, texture)
    }

    /// Releases a live key's entry.
    pub fn remove(&mut self, texture: u64)
        ensures
            old(self).entries().contains_key(texture) ==> final(self).entries() == old(
                self,
            ).entries().remove(texture),
    {
        let _ = arena_remove(&mut self.textures, texture);
    }

    /// The number of live entries.
    pub fn len(&self) -> (n: usize)
        requires
            self.entries().dom().finite(),
        ensures
            n == self.entries().dom().len(),
    {
        arena_len(&self.textures)
    }
}

impl Texture2D {
    /// A handle that never owns: a managed handle weakens to its key, a
    /// weak or unmanaged handle stays what it is.
    pub fn weak_clone(&self) -> (r: Texture2D)
        ensures
            r.texture == (match self.texture {
                TextureHandle::Managed(k) => TextureHandle::ManagedWeak(k),
                TextureHandle::ManagedWeak(k) => TextureHandle::ManagedWeak(k),
                TextureHandle::Unmanaged(id) => TextureHandle::Unmanaged(id),
            }),
    {
        match self.texture {
            TextureHandle::Managed(k) => Texture2D { texture: TextureHandle::ManagedWeak(k) },
            TextureHandle::ManagedWeak(k) => Texture2D { texture: TextureHandle::ManagedWeak(k) },
            TextureHandle::Unmanaged(id) => Texture2D { texture: TextureHandle::Unmanaged(id) },
        }
    }

    /// An unmanaged texture over a raw backend id.
    pub fn unmanaged(texture: u64) -> (r: Texture2D)
        ensures
            r.texture == TextureHandle::Unmanaged(texture),
    {
        Texture2D { texture: TextureHandle::Unmanaged(texture) }
    }

    /// A texture over a raw backend id, as handed out by the backend.
    pub fn from_miniquad_texture(texture: u64) -> (r: Texture2D)
        ensures
            r.texture == TextureHandle::Unmanaged(texture),
    {
        Texture2D { texture: TextureHandle::Unmanaged(texture) }
    }

    /// The backend id behind the handle: an unmanaged handle carries it,
    /// a managed handle resolves it through the registry.  A weak handle
    /// offers no resolution here.
    pub fn raw_miniquad_id(&self, ctx: &TexturesContext) -> (r: u64)
        requires
            match self.texture {
                TextureHandle::Managed(k) => ctx.entries().contains_key(k),
                TextureHandle::ManagedWeak(_) => false,
                TextureHandle::Unmanaged(_) => true,
            },
        ensures
            r == (match self.texture {
                TextureHandle::Managed(k) => ctx.entries()[k].0,
                TextureHandle::ManagedWeak(_) => 0,
                TextureHandle::Unmanaged(id) => id,
            }),
    {
        match self.texture {
            TextureHandle::Unmanaged(id) => id,
            TextureHandle::Managed(k) => {
                let e = ctx.texture(k);
                match e {
                    Some(t) => t.0,
                    None => {
                        proof {
                            assert(false);
                        }
                        0
                    },
                }
            },
            TextureHandle::ManagedWeak(_) => {
                proof {
                    assert(false);
                }
                0
            },
        }
    }
}

} // verus!
