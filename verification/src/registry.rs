//! The scene's id registry: which mobject ids have been handed out and which
//! of them are still on stage.
//!
//! Ids are handed out in order, starting at 0, one per added mobject; a
//! removed id keeps its slot (so later ids stay valid) and is never reused.
//! The registry is modelled as the sequence of slots, `true` where the
//! mobject is still present.

use vstd::prelude::*;

verus! {

/// `id` names a mobject that is still present.
pub open spec fn is_live(slots: Seq<bool>, id: int) -> bool {
    0 <= id < slots.len() && slots[id]
}

/// No mobject is present.
pub open spec fn none_live(slots: Seq<bool>) -> bool {
    forall|j: int| 0 <= j < slots.len() ==> !slots[j]
}

/// `id` is the most recently added mobject that is still present.
pub open spec fn is_last_live(slots: Seq<bool>, id: int) -> bool {
    &&& is_live(slots, id)
    &&& forall|j: int| id < j < slots.len() ==> !slots[j]
}

/// The id the scene reports as most recently added: the last present one, or
/// 0 when nothing is present.
pub open spec fn last_added(slots: Seq<bool>, id: int) -> bool {
    if none_live(slots) {
        id == 0
    } else {
        is_last_live(slots, id)
    }
}

/// Removing `id`: it succeeds only for a present mobject, which is then
/// marked gone.
pub open spec fn registry_remove(slots: Seq<bool>, id: int) -> (Seq<bool>, bool) {
    if is_live(slots, id) {
        (slots.update(id, false), true)
    } else {
        (slots, false)
    }
}

/// The registry of mobject ids of a scene.
pub struct SceneRegistry {
    slots: Vec<bool>,
}

impl View for SceneRegistry {
    type V = Seq<bool>;

    closed spec fn view(&self) -> Seq<bool> {
        self.slots@
    }
}

impl SceneRegistry {
    /// An empty registry: no id handed out yet.
    pub fn new() -> (r: SceneRegistry)
        ensures
            r@ == Seq::<bool>::empty(),
    {
        SceneRegistry { slots: Vec::new() }
    }

    /// The id the next added mobject will get (the number of ids handed out).
    pub fn next_id(&self) -> (n: usize)
        ensures
            n == self@.len(),
    {
        self.slots.len()
    }

    /// Registers a new mobject and returns its id.
    pub fn add(&mut self) -> (id: usize)
        requires
            old(self)@.len() < usize::MAX,
        ensures
            id == old(self)@.len(),
            final(self)@ == old(self)@.push(true),
    {
        let id = self.slots.len();
        self.slots.push(true);
        id
    }

    /// Removes a mobject by id.  Returns `true` if it was present; a second
    /// removal of the same id, or an id never handed out, returns `false`.
    pub fn remove(&mut self, id: usize) -> (removed: bool)
        ensures
            (final(self)@, removed) == registry_remove(old(self)@, id as int),
    {
        if id < self.slots.len() && self.slots[id] {
            self.slots.set(id, false);
            true
        } else {
            false
        }
    }

    /// Whether `id` names a mobject that is still present.
    pub fn contains(&self, id: usize) -> (r: bool)
        ensures
            r == is_live(self@, id as int),
    {
        id < self.slots.len() && self.slots[id]
    }

    /// The id of the most recently added mobject that is still present, or
    /// 0 when none is.
    pub fn last_added_id(&self) -> (id: usize)
        ensures
            last_added(self@, id as int),
    {
        let mut i = self.slots.len();
        while i > 0
            invariant
                i <= self.slots@.len(),
                forall|j: int| i <= j < self.slots@.len() ==> !self.slots@[j],
            decreases i,
        {
            if self.slots[i - 1] {
                return i - 1;
            }
            i -= 1;
        }
        0
    }

    /// The ids of all present mobjects, in the order they were added.
    pub fn live_ids(&self) -> (ids: Vec<usize>)
        ensures
            forall|k: int| 0 <= k < ids@.len() ==> is_live(self@, #[trigger] ids@[k] as int),
            forall|k: int, l: int| 0 <= k < l < ids@.len() ==> ids@[k] < ids@[l],
            forall|id: int| #[trigger] is_live(self@, id) ==> ids@.contains(id as usize),
    {
        let mut ids: Vec<usize> = Vec::new();
        let mut i: usize = 0;
        while i < self.slots.len()
            invariant
                i <= self.slots@.len(),
                forall|k: int| 0 <= k < ids@.len() ==> is_live(self@, #[trigger] ids@[k] as int),
                forall|k: int| 0 <= k < ids@.len() ==> #[trigger] ids@[k] < i,
                forall|k: int, l: int| 0 <= k < l < ids@.len() ==> ids@[k] < ids@[l],
                forall|id: int| 0 <= id < i && #[trigger] is_live(self@, id) ==> ids@.contains(
                    id as usize,
                ),
            decreases self.slots@.len() - i,
        {
            let ghost old_ids = ids@;
            if self.slots[i] {
                ids.push(i);
                assert(ids@[ids@.len() - 1] == i);
            }
            proof {
                assert forall|id: int| 0 <= id < i + 1 && #[trigger] is_live(self@, id) implies ids@.contains(
                    id as usize,
                ) by {
                    if id < i {
                        let k = choose|k: int| 0 <= k < old_ids.len() && old_ids[k] == id as usize;
                        assert(ids@[k] == old_ids[k]);
                    } else {
                        assert(ids@[ids@.len() - 1] == i);
                    }
                }
            }
            i += 1;
        }
        ids
    }
}

// ---------------------------------------------------------------------------
// Laws
// ---------------------------------------------------------------------------

/// A removed id stays removed: removing it again reports `false` and changes
/// nothing.
pub proof fn remove_is_idempotent(slots: Seq<bool>, id: int)
    ensures
        ({
            let (after, _) = registry_remove(slots, id);
            registry_remove(after, id) == (after, false)
        }),
{
}

/// Removing one id leaves every other id as it was.
pub proof fn remove_touches_only_its_id(slots: Seq<bool>, id: int, other: int)
    requires
        other != id,
    ensures
        is_live(registry_remove(slots, id).0, other) == is_live(slots, other),
{
}

/// A freshly added mobject is present and is the most recently added one.
pub proof fn added_id_is_last_added(slots: Seq<bool>)
    ensures
        is_live(slots.push(true), slots.len() as int),
        last_added(slots.push(true), slots.len() as int),
{
    let s2 = slots.push(true);
    assert(s2[slots.len() as int]);
}

/// Removing the most recently added mobject hands that role to the last
/// present mobject added before it.
pub proof fn remove_last_falls_back(slots: Seq<bool>, id: int, prev: int)
    requires
        is_last_live(slots, id),
        is_last_live(slots.subrange(0, id), prev),
    ensures
        is_last_live(registry_remove(slots, id).0, prev),
{
    let after = registry_remove(slots, id).0;
    assert forall|j: int| prev < j < after.len() implies !after[j] by {
        if j < id {
            assert(!slots.subrange(0, id)[j]);
        }
    }
}

/// Ids are never reused: removing keeps every slot, so the id the next
/// added mobject gets differs from every id handed out before, removed or
/// not.
pub proof fn ids_are_never_reused(slots: Seq<bool>, removed: int, earlier: int)
    requires
        0 <= earlier < slots.len(),
    ensures
        registry_remove(slots, removed).0.len() == slots.len(),
        registry_remove(slots, removed).0.len() != earlier,
{
}

/// Adding a mobject leaves the presence of every earlier id as it was.
pub proof fn add_keeps_other_ids(slots: Seq<bool>, other: int)
    requires
        other != slots.len(),
    ensures
        is_live(slots.push(true), other) == is_live(slots, other),
{
}

} // verus!
