//! Undo: a bounded history of scene snapshots taken before each modifier.
use vstd::prelude::*;
use std::collections::VecDeque;

verus! {

/// At most this many snapshots are kept.
pub const MAX_SCENE_STATES: usize = 20;

/// Snapshots of the scene, oldest first, and the one that undo restores next.
pub struct SceneStates<S> {
    pub index: u32,
    pub data: VecDeque<S>,
}

/// The snapshots after saving `snapshot`: appended, oldest dropped beyond the limit.
pub open spec fn saved<S>(data: Seq<S>, snapshot: S) -> Seq<S> {
    let p = data.push(snapshot);
    if p.len() > MAX_SCENE_STATES {
        p.skip(p.len() - MAX_SCENE_STATES)
    } else {
        p
    }
}

/// The snapshot that undo restores, if the cursor is on one.
pub open spec fn undo_target(index: int, len: int) -> Option<int> {
    if index < len {
        Some(index)
    } else {
        None
    }
}

/// The cursor after undo: one step back when a snapshot was restored, never below zero.
pub open spec fn undo_index(index: int, len: int) -> int {
    if index < len && index > 0 {
        index - 1
    } else {
        index
    }
}

impl<S> SceneStates<S> {
    /// No snapshots.
    pub fn new() -> (r: SceneStates<S>)
        ensures
            r.index == 0,
            r.data@.len() == 0,
    {
        SceneStates { index: 0, data: VecDeque::new() }
    }
}

/// Records `snapshot` and points undo at it.
pub fn save_state<S>(scene_states: &mut SceneStates<S>, snapshot: S)
    ensures
        final(scene_states).data@ == saved(old(scene_states).data@, snapshot),
        final(scene_states).index == final(scene_states).data@.len() - 1,
        final(scene_states).data@.len() <= MAX_SCENE_STATES,
{
    let ghost p = scene_states.data@.push(snapshot);
    scene_states.data.push_back(snapshot);
    proof {
        assert(scene_states.data@ == p);
        assert(p.skip(0) =~= p);
    }
    while scene_states.data.len() > MAX_SCENE_STATES
        invariant
            scene_states.data@.len() <= p.len(),
            scene_states.data@ == p.skip(p.len() - scene_states.data@.len()),
            p.len() > MAX_SCENE_STATES ==> scene_states.data@.len() >= MAX_SCENE_STATES,
            p.len() <= MAX_SCENE_STATES ==> scene_states.data@.len() == p.len(),
        decreases scene_states.data@.len(),
    {
        let ghost before = scene_states.data@;
        scene_states.data.pop_front();
        proof {
            assert(scene_states.data@ =~= p.skip(p.len() - scene_states.data@.len()));
        }
    }
    let len = scene_states.data.len();
    proof {
        assert(len >= 1);
    }
    scene_states.index = len as u32 - 1;
}

/// Points undo one snapshot further back and returns the position of the
/// snapshot to restore, when the cursor is on one.
pub fn undo<S>(scene_states: &mut SceneStates<S>) -> (r: Option<usize>)
    ensures
        final(scene_states).data@ == old(scene_states).data@,
        r == match undo_target(old(scene_states).index as int, old(scene_states).data@.len() as int) {
            Some(i) => Some(i as usize),
            None => None::<usize>,
        },
        final(scene_states).index == undo_index(
            old(scene_states).index as int,
            old(scene_states).data@.len() as int,
        ),
{
    if (scene_states.index as usize) < scene_states.data.len() {
        let i = scene_states.index as usize;
        if scene_states.index > 0 {
            scene_states.index = scene_states.index - 1;
        }
        Some(i)
    } else {
        None
    }
}

/// Undo right after saving restores the snapshot just saved, and the history
/// never grows past its limit.
pub proof fn lemma_undo_after_save<S>(data: Seq<S>, snapshot: S)
    ensures
        ({
            let d = saved(data, snapshot);
            &&& d.len() <= MAX_SCENE_STATES
            &&& undo_target(d.len() - 1, d.len() as int) == Some(d.len() - 1)
            &&& d[d.len() - 1] == snapshot
        }),
{
}

/// Once undo points at a snapshot it keeps doing so, walking back to the
/// oldest and staying there.
pub proof fn lemma_undo_stays_in_range(index: int, len: int)
    requires
        0 <= index < len,
    ensures
        0 <= undo_index(index, len) < len,
        undo_index(index, len) == if index > 0 {
            index - 1
        } else {
            0
        },
{
}


/// A snapshot of the scene: what was recorded of each vertex slot, `None`
/// for a slot with no record.
pub struct SceneState<R> {
    pub vertex_entities: Vec<Option<R>>,
}

/// Every vertex recorded as it is.
pub open spec fn snapshot_of<R>(vertices: Seq<R>) -> Seq<Option<R>> {
    Seq::new(vertices.len(), |i: int| Some(vertices[i]))
}

/// The vertices after restoring `snap`: each recorded vertex takes its
/// recorded value, the others stay.
pub open spec fn restored<R>(vertices: Seq<R>, snap: Seq<Option<R>>) -> Seq<R> {
    Seq::new(
        vertices.len(),
        |i: int|
            if i < snap.len() && snap[i] is Some {
                snap[i]->0
            } else {
                vertices[i]
            },
    )
}

/// Records every vertex (its transform, data and pick flag, whatever `R`
/// holds).
pub fn snapshot<R: Copy>(vertices: &Vec<R>) -> (r: SceneState<R>)
    ensures
        r.vertex_entities@ == snapshot_of(vertices@),
{
    let mut rec: Vec<Option<R>> = Vec::new();
    let mut i: usize = 0;
    while i < vertices.len()
        invariant
            i <= vertices@.len(),
            rec@ == snapshot_of(vertices@).take(i as int),
        decreases vertices@.len() - i,
    {
        rec.push(Some(vertices[i]));
        proof {
            assert(rec@ =~= snapshot_of(vertices@).take(i + 1));
        }
        i += 1;
    }
    proof {
        assert(snapshot_of(vertices@).take(i as int) =~= snapshot_of(vertices@));
    }
    SceneState { vertex_entities: rec }
}

/// Gives every vertex recorded in `state` its recorded value back.
pub fn restore_state<R: Copy>(state: &SceneState<R>, vertices: &mut Vec<R>)
    ensures
        final(vertices)@ == restored(old(vertices)@, state.vertex_entities@),
{
    let mut i: usize = 0;
    while i < vertices.len()
        invariant
            i <= vertices@.len(),
            vertices@.len() == old(vertices)@.len(),
            forall|j: int| 0 <= j < i ==> #[trigger] vertices@[j] == restored(old(vertices)@, state.vertex_entities@)[j],
            forall|j: int| i <= j < vertices@.len() ==> #[trigger] vertices@[j] == old(vertices)@[j],
        decreases vertices@.len() - i,
    {
        if i < state.vertex_entities.len() {
            if let Some(r) = state.vertex_entities[i] {
                vertices[i] = r;
            }
        }
        i += 1;
    }
    proof {
        assert(vertices@ =~= restored(old(vertices)@, state.vertex_entities@));
    }
}

/// Ctrl+Z: restores the snapshot under the undo cursor, if there is one, and
/// steps the cursor back.
pub fn undo_scene<R: Copy>(scene_states: &mut SceneStates<SceneState<R>>, vertices: &mut Vec<R>)
    ensures
        final(scene_states).data@ == old(scene_states).data@,
        final(scene_states).index == undo_index(
            old(scene_states).index as int,
            old(scene_states).data@.len() as int,
        ),
        final(vertices)@ == match undo_target(old(scene_states).index as int, old(scene_states).data@.len() as int) {
            Some(i) => restored(old(vertices)@, old(scene_states).data@[i].vertex_entities@),
            None => old(vertices)@,
        },
{
    match undo(scene_states) {
        Some(i) => restore_state(&scene_states.data[i], vertices),
        None => {},
    }
}

/// Undo right after saving a snapshot of every vertex gives each vertex back
/// the value it had when the snapshot was taken, however the vertices changed
/// in between (as long as no vertex came or went).
pub proof fn lemma_undo_restores_saved<R>(data: Seq<SceneState<R>>, snap: SceneState<R>, before: Seq<R>, after: Seq<R>)
    requires
        snap.vertex_entities@ == snapshot_of(before),
        after.len() == before.len(),
    ensures
        ({
            let d = saved(data, snap);
            &&& undo_target(d.len() - 1, d.len() as int) == Some(d.len() - 1)
            &&& restored(after, d[d.len() - 1].vertex_entities@) == before
        }),
{
    let d = saved(data, snap);
    assert(d[d.len() - 1] == snap);
    assert(restored(after, snapshot_of(before)) =~= before);
}

} // verus!
