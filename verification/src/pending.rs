//! The buffer between running UI frames and painting them.

use vstd::prelude::*;
use crate::outside::{
    delta_free, delta_into_parts, delta_is_whole, delta_set, is_whole, key_of, texture_key,
};

verus! {

/// What tells one texture from another: the kind of its id and the number in it.
#[derive(Clone, Copy, Debug, PartialEq, Eq, Structural)]
pub enum TextureKey {
    /// A texture that the UI library manages.
    Managed(u64),
    /// A texture of the application's own.
    User(u64),
}

/// The output of one or more UI frames as plain sequences: what a frame
/// produced, or what is waiting to be painted.
pub struct FrameView {
    /// Textures to create or update before drawing, in the order they are to be applied.
    pub set: Seq<(egui::TextureId, egui::epaint::ImageDelta)>,
    /// Textures to release after drawing, in the order they were asked for.
    pub free: Seq<egui::TextureId>,
    /// The draw instructions of the most recent frame.
    pub shapes: Seq<egui::epaint::ClippedShape>,
}

/// The buffer with nothing in it.
pub open spec fn empty_pending() -> FrameView {
    FrameView { set: Seq::empty(), free: Seq::empty(), shapes: Seq::empty() }
}

/// `set` without its entries for the texture `key`; the others stay in their order.
pub open spec fn without_texture(
    set: Seq<(egui::TextureId, egui::epaint::ImageDelta)>,
    key: TextureKey,
) -> Seq<(egui::TextureId, egui::epaint::ImageDelta)>
    decreases set.len(),
{
    if set.len() == 0 {
        Seq::empty()
    } else if texture_key(set.last().0) == key {
        without_texture(set.drop_last(), key)
    } else {
        without_texture(set.drop_last(), key).push(set.last())
    }
}

/// `set` with one more entry at its end. An entry that replaces the whole
/// texture supersedes every earlier entry for that texture; one that patches
/// a region leaves them in place, since it builds on them.
pub open spec fn with_entry(
    set: Seq<(egui::TextureId, egui::epaint::ImageDelta)>,
    entry: (egui::TextureId, egui::epaint::ImageDelta),
) -> Seq<(egui::TextureId, egui::epaint::ImageDelta)> {
    if delta_is_whole(entry.1) {
        without_texture(set, texture_key(entry.0)).push(entry)
    } else {
        set.push(entry)
    }
}

/// `set` with the entries of `newer` added one after another.
pub open spec fn merged_set(
    set: Seq<(egui::TextureId, egui::epaint::ImageDelta)>,
    newer: Seq<(egui::TextureId, egui::epaint::ImageDelta)>,
) -> Seq<(egui::TextureId, egui::epaint::ImageDelta)>
    decreases newer.len(),
{
    if newer.len() == 0 {
        set
    } else {
        with_entry(merged_set(set, newer.drop_last()), newer.last())
    }
}

/// No entry is followed by one for the same texture that replaces the whole of it.
pub open spec fn settled(set: Seq<(egui::TextureId, egui::epaint::ImageDelta)>) -> bool {
    forall|i: int, j: int|
        0 <= i < j < set.len() && texture_key(#[trigger] set[i].0) == texture_key(#[trigger] set[j].0)
            ==> !delta_is_whole(set[j].1)
}

/// Whether `set` holds an entry that replaces the whole of the texture `key`.
pub open spec fn uploads_whole(set: Seq<(egui::TextureId, egui::epaint::ImageDelta)>, key: TextureKey) -> bool {
    exists|i: int|
        0 <= i < set.len() && texture_key((#[trigger] set[i]).0) == key && delta_is_whole(set[i].1)
}

/// The queued releases `free` that are still due once a frame with the
/// uploads `set` is stored: a release is taken out where the frame uploads
/// the whole of its texture again, and stays where the frame only patches
/// the texture or does not touch it. Those that stay keep their order.
pub open spec fn still_released(
    free: Seq<egui::TextureId>,
    set: Seq<(egui::TextureId, egui::epaint::ImageDelta)>,
) -> Seq<egui::TextureId>
    decreases free.len(),
{
    if free.len() == 0 {
        Seq::empty()
    } else if uploads_whole(set, texture_key(free.last())) {
        still_released(free.drop_last(), set)
    } else {
        still_released(free.drop_last(), set).push(free.last())
    }
}

/// What the buffer holds once the output of one more frame is stored: the
/// frame's texture uploads are merged in, the releases queued before are
/// kept but for those whose texture the frame uploads whole again, the
/// frame's own releases are queued behind them, and its shapes replace the
/// earlier ones.
pub open spec fn stored(before: FrameView, frame: FrameView) -> FrameView {
    FrameView {
        set: merged_set(before.set, frame.set),
        free: still_released(before.free, frame.set) + frame.free,
        shapes: frame.shapes,
    }
}

/// What the buffer holds once the outputs of `frames` are stored one after another.
pub open spec fn stored_all(before: FrameView, frames: Seq<FrameView>) -> FrameView
    decreases frames.len(),
{
    if frames.len() == 0 {
        before
    } else {
        stored(stored_all(before, frames.drop_last()), frames.last())
    }
}

/// The `set` lists of `frames`, joined in order.
pub open spec fn joined_set(frames: Seq<FrameView>) -> Seq<(egui::TextureId, egui::epaint::ImageDelta)>
    decreases frames.len(),
{
    if frames.len() == 0 {
        Seq::empty()
    } else {
        joined_set(frames.drop_last()) + frames.last().set
    }
}

/// The `free` lists of `frames`, joined in order.
pub open spec fn joined_free(frames: Seq<FrameView>) -> Seq<egui::TextureId>
    decreases frames.len(),
{
    if frames.len() == 0 {
        Seq::empty()
    } else {
        joined_free(frames.drop_last()) + frames.last().free
    }
}

/// Shapes and texture changes accumulated since the last paint.
pub struct PendingFrame {
    shapes: Vec<egui::epaint::ClippedShape>,
    set: Vec<(egui::TextureId, egui::epaint::ImageDelta)>,
    free: Vec<egui::TextureId>,
}

impl View for PendingFrame {
    type V = FrameView;

    closed spec fn view(&self) -> FrameView {
        FrameView { set: self.set@, free: self.free@, shapes: self.shapes@ }
    }
}

/// Removes the entries for the texture `key`.
fn drop_texture(set: Vec<(egui::TextureId, egui::epaint::ImageDelta)>, key: TextureKey) -> (kept: Vec<
    (egui::TextureId, egui::epaint::ImageDelta),
>)
    ensures
        kept@ == without_texture(set@, key),
{
    let ghost all = set@;
    let mut kept: Vec<(egui::TextureId, egui::epaint::ImageDelta)> = Vec::new();
    for entry in it: set
        invariant
            it.seq() == all,
            kept@ == without_texture(all.take(it.index() as int), key),
    {
        proof {
            let seen = all.take(it.index() + 1);
            assert(seen.drop_last() == all.take(it.index() as int));
            assert(seen.last() == all[it.index() as int]);
        }
        if key_of(&entry.0) == key {
        } else {
            kept.push(entry);
        }
    }
    proof {
        assert(all.take(all.len() as int) == all);
    }
    kept
}

/// Whether `set` holds an entry that replaces the whole of the texture `key`.
fn has_whole_upload(set: &Vec<(egui::TextureId, egui::epaint::ImageDelta)>, key: TextureKey) -> (found: bool)
    ensures
        found == uploads_whole(set@, key),
{
    let mut i: usize = 0;
    while i < set.len()
        invariant
            i <= set.len(),
            forall|k: int|
                0 <= k < i ==> !(texture_key((#[trigger] set@[k]).0) == key && delta_is_whole(set@[k].1)),
        decreases set.len() - i,
    {
        let entry = &set[i];
        if is_whole(&entry.1) && key_of(&entry.0) == key {
            return true;
        }
        i += 1;
    }
    false
}

/// Takes out the releases of textures that `set` uploads whole.
fn drop_reuploaded(free: Vec<egui::TextureId>, set: &Vec<(egui::TextureId, egui::epaint::ImageDelta)>) -> (kept:
    Vec<egui::TextureId>)
    ensures
        kept@ == still_released(free@, set@),
{
    let ghost all = free@;
    let mut kept: Vec<egui::TextureId> = Vec::new();
    for id in it: free
        invariant
            it.seq() == all,
            kept@ == still_released(all.take(it.index() as int), set@),
    {
        proof {
            let seen = all.take(it.index() + 1);
            assert(seen.drop_last() == all.take(it.index() as int));
            assert(seen.last() == all[it.index() as int]);
        }
        let key = key_of(&id);
        if has_whole_upload(set, key) {
        } else {
            kept.push(id);
        }
    }
    proof {
        assert(all.take(all.len() as int) == all);
    }
    kept
}

impl PendingFrame {
    /// An empty buffer.
    pub fn new() -> (frame: PendingFrame)
        ensures
            frame@ == empty_pending(),
    {
        PendingFrame { shapes: Vec::new(), set: Vec::new(), free: Vec::new() }
    }

    /// Stores the output of one UI frame: `shapes` replace the stored shapes,
    /// the uploads of `textures_delta` are merged into the stored ones, a
    /// stored release is dropped where the frame uploads the whole of its
    /// texture again, and the frame's releases are queued behind the rest.
    pub fn store(&mut self, textures_delta: egui::TexturesDelta, shapes: Vec<egui::epaint::ClippedShape>)
        ensures
            final(self)@ == stored(
                old(self)@,
                (FrameView {
                    set: delta_set(textures_delta),
                    free: delta_free(textures_delta),
                    shapes: shapes@,
                }),
            ),
            settled(old(self)@.set) ==> settled(final(self)@.set),
    {
        proof {
            if settled(self@.set) {
                lemma_merged_is_settled(self@.set, delta_set(textures_delta));
            }
        }
        let (newer, mut released) = delta_into_parts(textures_delta);
        let ghost incoming = newer@;
        let ghost before = self.set@;
        let mut free: Vec<egui::TextureId> = Vec::new();
        std::mem::swap(&mut self.free, &mut free);
        let mut free = drop_reuploaded(free, &newer);
        let mut set: Vec<(egui::TextureId, egui::epaint::ImageDelta)> = Vec::new();
        std::mem::swap(&mut self.set, &mut set);
        for entry in it: newer
            invariant
                it.seq() == incoming,
                set@ == merged_set(before, incoming.take(it.index() as int)),
        {
            proof {
                let seen = incoming.take(it.index() + 1);
                assert(seen.drop_last() == incoming.take(it.index() as int));
                assert(seen.last() == incoming[it.index() as int]);
            }
            if is_whole(&entry.1) {
                let key = key_of(&entry.0);
                set = drop_texture(set, key);
            }
            set.push(entry);
        }
        proof {
            assert(incoming.take(incoming.len() as int) == incoming);
        }
        free.append(&mut released);
        self.set = set;
        self.free = free;
        self.shapes = shapes;
    }

    /// Detaches everything stored and leaves the buffer empty: the shapes,
    /// the uploads and the releases that were waiting are handed out.
    pub fn take(&mut self) -> (taken: (
        Vec<egui::epaint::ClippedShape>,
        Vec<(egui::TextureId, egui::epaint::ImageDelta)>,
        Vec<egui::TextureId>,
    ))
        ensures
            final(self)@ == empty_pending(),
            taken.0@ == old(self)@.shapes,
            taken.1@ == old(self)@.set,
            taken.2@ == old(self)@.free,
    {
        let mut shapes: Vec<egui::epaint::ClippedShape> = Vec::new();
        let mut set: Vec<(egui::TextureId, egui::epaint::ImageDelta)> = Vec::new();
        let mut free: Vec<egui::TextureId> = Vec::new();
        std::mem::swap(&mut self.shapes, &mut shapes);
        std::mem::swap(&mut self.set, &mut set);
        std::mem::swap(&mut self.free, &mut free);
        (shapes, set, free)
    }
}

/// Merging two lists one after the other is merging their concatenation.
pub proof fn lemma_merge_in_turn(
    set: Seq<(egui::TextureId, egui::epaint::ImageDelta)>,
    first: Seq<(egui::TextureId, egui::epaint::ImageDelta)>,
    second: Seq<(egui::TextureId, egui::epaint::ImageDelta)>,
)
    ensures
        merged_set(merged_set(set, first), second) == merged_set(set, first + second),
    decreases second.len(),
{
    if second.len() == 0 {
        assert(first + second == first);
    } else {
        lemma_merge_in_turn(set, first, second.drop_last());
        assert((first + second).drop_last() == first + second.drop_last());
        assert((first + second).last() == second.last());
    }
}

/// The releases that are due once `frames` are stored one after another
/// behind the queued releases `free`: each frame first takes out the
/// releases of the textures that it uploads whole, then queues its own.
pub open spec fn queued_releases(free: Seq<egui::TextureId>, frames: Seq<FrameView>) -> Seq<egui::TextureId>
    decreases frames.len(),
{
    if frames.len() == 0 {
        free
    } else {
        still_released(queued_releases(free, frames.drop_last()), frames.last().set) + frames.last().free
    }
}

/// Whether no frame of `frames` uploads the whole of a texture whose release
/// is due when that frame is stored.
pub open spec fn no_release_revoked(free: Seq<egui::TextureId>, frames: Seq<FrameView>) -> bool
    decreases frames.len(),
{
    if frames.len() == 0 {
        true
    } else {
        &&& no_release_revoked(free, frames.drop_last())
        &&& forall|i: int|
            0 <= i < queued_releases(free, frames.drop_last()).len() ==> !uploads_whole(
                frames.last().set,
                texture_key(#[trigger] queued_releases(free, frames.drop_last())[i]),
            )
    }
}

/// Frames stored one after another, with no paint in between, leave the
/// uploads of all of them merged in the order of the calls into what was
/// stored before, the releases that are due after all of them, and the
/// shapes of the last frame alone. Where no frame uploads a texture again
/// whose release is due, the releases are those stored before and those of
/// all the frames, in the order of the calls.
pub proof fn lemma_frames_accumulate(before: FrameView, frames: Seq<FrameView>)
    ensures
        stored_all(before, frames).set == merged_set(before.set, joined_set(frames)),
        stored_all(before, frames).free == queued_releases(before.free, frames),
        no_release_revoked(before.free, frames) ==> stored_all(before, frames).free == before.free
            + joined_free(frames),
        stored_all(before, frames).shapes == if frames.len() == 0 {
            before.shapes
        } else {
            frames.last().shapes
        },
    decreases frames.len(),
{
    if frames.len() > 0 {
        lemma_frames_accumulate(before, frames.drop_last());
        lemma_merge_in_turn(before.set, joined_set(frames.drop_last()), frames.last().set);
        if no_release_revoked(before.free, frames) {
            lemma_still_released(queued_releases(before.free, frames.drop_last()), frames.last().set);
            assert(before.free + joined_free(frames.drop_last()) + frames.last().free == before.free + (
            joined_free(frames.drop_last()) + frames.last().free));
        }
    } else {
        assert(before.free + Seq::empty() == before.free);
    }
}

/// Of the releases that are still due, none is for a texture that the frame
/// uploads whole; and where the frame uploads none of their textures whole,
/// all of them are still due.
pub proof fn lemma_still_released(
    free: Seq<egui::TextureId>,
    set: Seq<(egui::TextureId, egui::epaint::ImageDelta)>,
)
    ensures
        forall|i: int|
            0 <= i < still_released(free, set).len() ==> !uploads_whole(
                set,
                texture_key(#[trigger] still_released(free, set)[i]),
            ),
        (forall|i: int| 0 <= i < free.len() ==> !uploads_whole(set, texture_key(#[trigger] free[i])))
            ==> still_released(free, set) == free,
    decreases free.len(),
{
    if free.len() > 0 {
        let front = free.drop_last();
        lemma_still_released(front, set);
        if forall|i: int| 0 <= i < free.len() ==> !uploads_whole(set, texture_key(#[trigger] free[i])) {
            assert forall|i: int| 0 <= i < front.len() implies !uploads_whole(
                set,
                texture_key(#[trigger] front[i]),
            ) by {
                assert(front[i] == free[i]);
            }
            assert(!uploads_whole(set, texture_key(free[free.len() - 1])));
            assert(front.push(free.last()) == free);
        }
    }
}

/// A frame that uploads the whole of a texture revokes the releases of that
/// texture that were queued before it: in what is stored afterwards, a
/// release of that texture can only be one of the frame's own.
pub proof fn lemma_whole_upload_revokes_release(before: FrameView, frame: FrameView, key: TextureKey)
    requires
        uploads_whole(frame.set, key),
    ensures
        stored(before, frame).free.len() >= frame.free.len(),
        forall|i: int|
            0 <= i < stored(before, frame).free.len() - frame.free.len() ==> texture_key(
                #[trigger] stored(before, frame).free[i],
            ) != key,
{
    lemma_still_released(before.free, frame.set);
    let kept = still_released(before.free, frame.set);
    assert forall|i: int| 0 <= i < stored(before, frame).free.len() - frame.free.len() implies texture_key(
        #[trigger] stored(before, frame).free[i],
    ) != key by {
        assert(stored(before, frame).free[i] == kept[i]);
    }
}

/// Removing a texture's entries leaves nothing for that texture, adds no
/// entry, and leaves a settled list settled.
pub proof fn lemma_without_texture(set: Seq<(egui::TextureId, egui::epaint::ImageDelta)>, key: TextureKey)
    ensures
        forall|i: int|
            0 <= i < without_texture(set, key).len() ==> texture_key(
                (#[trigger] without_texture(set, key)[i]).0,
            ) != key,
        forall|i: int|
            0 <= i < without_texture(set, key).len() ==> exists|k: int|
                0 <= k < set.len() && set[k] == #[trigger] without_texture(set, key)[i],
        settled(set) ==> settled(without_texture(set, key)),
    decreases set.len(),
{
    if set.len() > 0 {
        let front = set.drop_last();
        let kept = without_texture(front, key);
        let out = without_texture(set, key);
        lemma_without_texture(front, key);
        assert forall|i: int| 0 <= i < out.len() implies exists|k: int|
            0 <= k < set.len() && set[k] == #[trigger] out[i] by {
            if i < kept.len() {
                let k = choose|k: int| 0 <= k < front.len() && front[k] == kept[i];
                assert(set[k] == out[i]);
            } else {
                assert(set[set.len() - 1] == out[i]);
            }
        }
        if settled(set) {
            assert(settled(front)) by {
                assert forall|i: int, j: int|
                    0 <= i < j < front.len() && texture_key(#[trigger] front[i].0) == texture_key(
                        #[trigger] front[j].0,
                    ) implies !delta_is_whole(front[j].1) by {
                    assert(front[i] == set[i] && front[j] == set[j]);
                }
            }
            assert forall|i: int, j: int|
                0 <= i < j < out.len() && texture_key(#[trigger] out[i].0) == texture_key(
                    #[trigger] out[j].0,
                ) implies !delta_is_whole(out[j].1) by {
                if j < kept.len() {
                    assert(kept[i] == out[i] && kept[j] == out[j]);
                } else {
                    let k = choose|k: int| 0 <= k < front.len() && front[k] == kept[i];
                    assert(set[k] == out[i] && set[set.len() - 1] == out[j]);
                }
            }
        }
    }
}

/// A later upload of a whole texture supersedes the earlier ones: once it is
/// added, it stands last and is the only entry for its texture.
pub proof fn lemma_whole_upload_supersedes(
    set: Seq<(egui::TextureId, egui::epaint::ImageDelta)>,
    entry: (egui::TextureId, egui::epaint::ImageDelta),
)
    requires
        delta_is_whole(entry.1),
    ensures
        with_entry(set, entry).last() == entry,
        forall|i: int|
            0 <= i < with_entry(set, entry).len() - 1 ==> texture_key(
                (#[trigger] with_entry(set, entry)[i]).0,
            ) != texture_key(entry.0),
{
    lemma_without_texture(set, texture_key(entry.0));
    let kept = without_texture(set, texture_key(entry.0));
    assert forall|i: int| 0 <= i < with_entry(set, entry).len() - 1 implies texture_key(
        (#[trigger] with_entry(set, entry)[i]).0,
    ) != texture_key(entry.0) by {
        assert(with_entry(set, entry)[i] == kept[i]);
    }
}

/// Merging keeps a list settled: in what is waiting, no upload is followed
/// by one that replaces the whole of the same texture.
pub proof fn lemma_merged_is_settled(
    set: Seq<(egui::TextureId, egui::epaint::ImageDelta)>,
    newer: Seq<(egui::TextureId, egui::epaint::ImageDelta)>,
)
    requires
        settled(set),
    ensures
        settled(merged_set(set, newer)),
    decreases newer.len(),
{
    if newer.len() > 0 {
        lemma_merged_is_settled(set, newer.drop_last());
        let acc = merged_set(set, newer.drop_last());
        let entry = newer.last();
        lemma_without_texture(acc, texture_key(entry.0));
        let base = if delta_is_whole(entry.1) {
            without_texture(acc, texture_key(entry.0))
        } else {
            acc
        };
        let out = with_entry(acc, entry);
        assert forall|i: int, j: int|
            0 <= i < j < out.len() && texture_key(#[trigger] out[i].0) == texture_key(
                #[trigger] out[j].0,
            ) implies !delta_is_whole(out[j].1) by {
            assert(base[i] == out[i]);
            if j < base.len() {
                assert(base[j] == out[j]);
            }
        }
    }
}

} // verus!
