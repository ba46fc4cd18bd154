//! Which textures an import asks the host to load, and which it reuses.
//!
//! Textures are cached by path for the length of one import. A material's
//! slot is skipped where its role is not supported or its file name is
//! empty, served from the cache where the path is known, and otherwise
//! turned into a request to the host.

use vstd::prelude::*;
use vstd::string::*;
use crate::mesh::{texture_views, Texture, TextureKind, TextureView};
use crate::paths::{join_path, joined};
use crate::scene::{SlotKind, TextureSlot};
use crate::text::str_eq;

verus! {

/// The first entry with the path `path`.
pub open spec fn cached(entries: Seq<TextureView>, path: Seq<char>) -> Option<TextureView>
    decreases entries.len(),
{
    if entries.len() == 0 {
        None
    } else if entries[0].path == path {
        Some(entries[0])
    } else {
        cached(entries.drop_first(), path)
    }
}

/// No two entries share a path.
pub open spec fn distinct_paths(entries: Seq<TextureView>) -> bool {
    forall|i: int, j: int|
        0 <= i < j < entries.len() ==> (#[trigger] entries[i]).path != (#[trigger] entries[j]).path
}

/// A path is found in the cache exactly if some entry carries it, and what
/// is found carries it.
pub proof fn lemma_cached(entries: Seq<TextureView>, path: Seq<char>)
    ensures
        cached(entries, path) is None <==> forall|i: int|
            0 <= i < entries.len() ==> (#[trigger] entries[i]).path != path,
        cached(entries, path) matches Some(t) ==> t.path == path && entries.contains(t),
    decreases entries.len(),
{
    if entries.len() > 0 {
        let rest = entries.drop_first();
        lemma_cached(rest, path);
        if entries[0].path != path {
            assert forall|i: int|
                0 <= i < entries.len() && cached(rest, path) is None implies (#[trigger] entries[i]).path
                != path by {
                if i > 0 {
                    assert(entries[i] == rest[i - 1]);
                }
            }
            if cached(rest, path) is Some {
                let t = cached(rest, path)->0;
                let k = choose|k: int| 0 <= k < rest.len() && rest[k] == t;
                assert(entries[k + 1] == t);
            }
        } else {
            assert(entries[0] == cached(entries, path)->0);
        }
    }
}

/// Adding a texture under a path that the cache does not hold keeps the
/// paths distinct.
pub proof fn lemma_insert_keeps_distinct(entries: Seq<TextureView>, t: TextureView)
    requires
        distinct_paths(entries),
        cached(entries, t.path) is None,
    ensures
        distinct_paths(entries.push(t)),
{
    lemma_cached(entries, t.path);
}

/// The textures loaded so far in one import, oldest first.
#[derive(Debug)]
pub struct TextureCache {
    entries: Vec<Texture>,
}

impl View for TextureCache {
    type V = Seq<TextureView>;

    closed spec fn view(&self) -> Seq<TextureView> {
        texture_views(self.entries@)
    }
}

impl TextureCache {
    /// No path is cached twice.
    pub open spec fn wf(&self) -> bool {
        distinct_paths(self@)
    }

    /// An empty cache.
    pub fn new() -> (cache: Self)
        ensures
            cache@ == Seq::<TextureView>::empty(),
            cache.wf(),
    {
        let entries: Vec<Texture> = Vec::new();
        assert(texture_views(entries@) =~= Seq::<TextureView>::empty());
        TextureCache { entries }
    }

    /// The number of cached textures.
    pub fn len(&self) -> (n: usize)
        ensures
            n == self@.len(),
    {
        self.entries.len()
    }

    /// A copy of the texture cached under `path`.
    pub fn find(&self, path: &str) -> (found: Option<Texture>)
        ensures
            match found {
                Some(t) => cached(self@, path@) == Some(t@),
                None => cached(self@, path@) is None,
            },
    {
        let mut i: usize = 0;
        assert(self@.skip(0) =~= self@);
        while i < self.entries.len()
            invariant
                i <= self.entries@.len(),
                cached(self@, path@) == cached(self@.skip(i as int), path@),
            decreases self.entries@.len() - i,
        {
            let ghost rest = self@.skip(i as int);
            assert(rest[0] == self.entries@[i as int]@);
            assert(rest.drop_first() =~= self@.skip(i + 1));
            if str_eq(self.entries[i].path.as_str(), path) {
                return Some(self.entries[i].clone());
            }
            i = i + 1;
        }
        assert(self@.skip(i as int) =~= Seq::<TextureView>::empty());
        None
    }

    /// Caches `texture` as the newest entry, unless its path is cached
    /// already. Returns whether it was cached.
    pub fn insert(&mut self, texture: Texture) -> (added: bool)
        ensures
            added == (cached(old(self)@, texture.path@) is None),
            final(self)@ == if added {
                old(self)@.push(texture@)
            } else {
                old(self)@
            },
            old(self).wf() ==> final(self).wf(),
    {
        if self.find(texture.path.as_str()).is_some() {
            return false;
        }
        proof {
            if self.wf() {
                lemma_insert_keeps_distinct(self@, texture@);
            }
            assert(texture_views(self.entries@.push(texture)) =~= self@.push(texture@));
        }
        self.entries.push(texture);
        true
    }
}

/// What a slot's role means for shading, where the importer supports it.
pub open spec fn supported(kind: SlotKind) -> Option<TextureKind> {
    match kind {
        SlotKind::Diffuse => Some(TextureKind::Diffuse),
        SlotKind::Specular => Some(TextureKind::Specular),
        SlotKind::Other => None,
    }
}

/// Computes `supported`.
pub fn supported_kind(kind: SlotKind) -> (k: Option<TextureKind>)
    ensures
        k == supported(kind),
{
    match kind {
        SlotKind::Diffuse => Some(TextureKind::Diffuse),
        SlotKind::Specular => Some(TextureKind::Specular),
        SlotKind::Other => None,
    }
}

/// A texture that the host is asked to load.
#[derive(Debug)]
pub struct LoadRequest {
    pub path: String,
    pub kind: TextureKind,
}

/// A request as contracts see it.
pub struct RequestView {
    pub path: Seq<char>,
    pub kind: TextureKind,
}

impl View for LoadRequest {
    type V = RequestView;

    open spec fn view(&self) -> RequestView {
        RequestView { path: self.path@, kind: self.kind }
    }
}

impl Clone for LoadRequest {
    fn clone(&self) -> (r: Self)
        ensures
            r@ == self@,
    {
        LoadRequest { path: self.path.clone(), kind: self.kind }
    }
}

/// What becomes of one texture slot.
#[derive(Debug)]
pub enum Disposition {
    /// Nothing: the slot contributes no texture.
    Skip,
    /// The texture is in the cache already.
    Reuse(Texture),
    /// The host has to load the texture.
    Load(LoadRequest),
}

/// A disposition as contracts see it.
pub enum DispositionView {
    Skip,
    Reuse(TextureView),
    Load(RequestView),
}

impl View for Disposition {
    type V = DispositionView;

    open spec fn view(&self) -> DispositionView {
        match self {
            Disposition::Skip => DispositionView::Skip,
            Disposition::Reuse(t) => DispositionView::Reuse(t@),
            Disposition::Load(r) => DispositionView::Load(r@),
        }
    }
}

/// What becomes of a texture of role `kind` at `path`: the cached texture
/// where the cache has the path, else a request.
pub open spec fn placed(path: Seq<char>, kind: TextureKind, cache: Seq<TextureView>) -> DispositionView {
    match cached(cache, path) {
        Some(t) => DispositionView::Reuse(t),
        None => DispositionView::Load(RequestView { path, kind }),
    }
}

/// What becomes of `slot` of a material whose asset lies in `dir`.
pub open spec fn disposition(slot: TextureSlot, dir: Seq<char>, cache: Seq<TextureView>) -> DispositionView {
    match supported(slot.kind) {
        None => DispositionView::Skip,
        Some(kind) => if slot.filename@.len() == 0 {
            DispositionView::Skip
        } else {
            placed(joined(dir, slot.filename@), kind, cache)
        },
    }
}

/// Looks `path` up in the cache and decides between reuse and a request.
pub fn place(path: String, kind: TextureKind, cache: &TextureCache) -> (d: Disposition)
    ensures
        d@ == placed(path@, kind, cache@),
{
    match cache.find(path.as_str()) {
        Some(t) => Disposition::Reuse(t),
        None => Disposition::Load(LoadRequest { path, kind }),
    }
}

/// Decides what becomes of `slot`.
pub fn inspect_slot(slot: &TextureSlot, dir: &str, cache: &TextureCache) -> (d: Disposition)
    ensures
        d@ == disposition(*slot, dir@, cache@),
{
    match supported_kind(slot.kind) {
        None => Disposition::Skip,
        Some(kind) => {
            if slot.filename.as_str().is_empty() {
                Disposition::Skip
            } else {
                let path = join_path(dir, slot.filename.as_str());
                place(path, kind, cache)
            }
        },
    }
}

/// Where the walk over a material's slots comes to rest.
pub struct Settled {
    /// The slot whose texture the host has to load; the number of slots
    /// where none is left.
    pub slot: nat,
    /// The textures gathered on the way.
    pub textures: Seq<TextureView>,
    /// What the host is asked for, where a slot is left.
    pub request: Option<RequestView>,
}

/// Walks the slots from `from` on, with `got` in hand: a skipped slot adds
/// nothing, a cached texture is added to `got`, and the first slot that
/// needs the host ends the walk.
pub open spec fn settled(
    slots: Seq<TextureSlot>,
    from: nat,
    dir: Seq<char>,
    cache: Seq<TextureView>,
    got: Seq<TextureView>,
) -> Settled
    decreases slots.len() - from,
{
    if from >= slots.len() {
        Settled { slot: slots.len(), textures: got, request: None }
    } else {
        match disposition(slots[from as int], dir, cache) {
            DispositionView::Skip => settled(slots, from + 1, dir, cache, got),
            DispositionView::Reuse(t) => settled(slots, from + 1, dir, cache, got.push(t)),
            DispositionView::Load(r) => Settled { slot: from, textures: got, request: Some(r) },
        }
    }
}

/// The walk rests at or after its start and within the slots; it rests on a
/// slot exactly if it has a request, and the request is what that slot
/// asks for; it only ever adds to what it had in hand.
pub proof fn lemma_settled(
    slots: Seq<TextureSlot>,
    from: nat,
    dir: Seq<char>,
    cache: Seq<TextureView>,
    got: Seq<TextureView>,
)
    requires
        from <= slots.len(),
    ensures
        from <= settled(slots, from, dir, cache, got).slot <= slots.len(),
        got.len() <= settled(slots, from, dir, cache, got).textures.len(),
        settled(slots, from, dir, cache, got).textures.subrange(0, got.len() as int) == got,
        match settled(slots, from, dir, cache, got).request {
            Some(r) => {
                &&& settled(slots, from, dir, cache, got).slot < slots.len()
                &&& disposition(
                    slots[settled(slots, from, dir, cache, got).slot as int],
                    dir,
                    cache,
                ) == DispositionView::Load(r)
            },
            None => settled(slots, from, dir, cache, got).slot == slots.len(),
        },
    decreases slots.len() - from,
{
    if from < slots.len() {
        match disposition(slots[from as int], dir, cache) {
            DispositionView::Skip => {
                lemma_settled(slots, from + 1, dir, cache, got);
            },
            DispositionView::Reuse(t) => {
                lemma_settled(slots, from + 1, dir, cache, got.push(t));
                let end = settled(slots, from, dir, cache, got).textures;
                assert(end.subrange(0, got.len() as int) =~= end.subrange(
                    0,
                    (got.len() + 1) as int,
                ).subrange(0, got.len() as int));
                assert(got.push(t).subrange(0, got.len() as int) =~= got);
            },
            DispositionView::Load(r) => {
                assert(got.subrange(0, got.len() as int) =~= got);
            },
        }
    } else {
        assert(got.subrange(0, got.len() as int) =~= got);
    }
}

/// The view of an optional request.
pub open spec fn request_view(request: Option<LoadRequest>) -> Option<RequestView> {
    match request {
        Some(r) => Some(r@),
        None => None,
    }
}

/// Walks `slots` from `from` on, adding to `got` the cached textures it
/// passes, until a slot needs the host or no slot is left. Returns where the
/// walk rests and what it asks for.
pub fn settle(
    slots: &Vec<TextureSlot>,
    from: usize,
    dir: &str,
    cache: &TextureCache,
    got: &mut Vec<Texture>,
) -> (out: (usize, Option<LoadRequest>))
    ensures
        out.0 == settled(slots@, from as nat, dir@, cache@, texture_views(old(got)@)).slot,
        request_view(out.1) == settled(
            slots@,
            from as nat,
            dir@,
            cache@,
            texture_views(old(got)@),
        ).request,
        texture_views(final(got)@) == settled(
            slots@,
            from as nat,
            dir@,
            cache@,
            texture_views(old(got)@),
        ).textures,
{
    let ghost goal = settled(slots@, from as nat, dir@, cache@, texture_views(got@));
    if from >= slots.len() {
        return (slots.len(), None);
    }
    let mut i: usize = from;
    while i < slots.len()
        invariant
            from <= i <= slots@.len(),
            goal == settled(slots@, from as nat, dir@, cache@, texture_views(old(got)@)),
            goal == settled(slots@, i as nat, dir@, cache@, texture_views(got@)),
        decreases slots@.len() - i,
    {
        let ghost before = texture_views(got@);
        match inspect_slot(&slots[i], dir, cache) {
            Disposition::Skip => {},
            Disposition::Reuse(t) => {
                got.push(t);
                assert(texture_views(got@) =~= before.push(t@));
            },
            Disposition::Load(r) => {
                return (i, Some(r));
            },
        }
        i = i + 1;
    }
    (i, None)
}

} // verus!
