//! The decisions of the scene prepasses: how the opaque phase's items are
//! cut into batches, and what each batch of the normal prepass draws.
use vstd::prelude::*;

verus! {

/// `runs` cuts `keys` into its maximal runs of equal keys, in order: each
/// run is a non-empty range `start..end`, the runs follow one another from
/// 0 to the end of `keys`, every key of a run equals its first, and the key
/// just after a run differs from the run's.
pub open spec fn maximal_runs<K>(keys: Seq<K>, runs: Seq<(usize, usize)>) -> bool {
    &&& (keys.len() == 0 <==> runs.len() == 0)
    &&& runs.len() > 0 ==> runs[0].0 == 0 && runs.last().1 == keys.len()
    &&& forall|i: int| 0 <= i < runs.len() ==> (#[trigger] runs[i]).0 < runs[i].1
    &&& forall|i: int| 1 <= i < runs.len() ==> runs[i - 1].1 == (#[trigger] runs[i]).0
    &&& forall|i: int, j: int|
        0 <= i < runs.len() && runs[i].0 <= j < runs[i].1 ==> #[trigger] keys[j] == keys[(
        #[trigger] runs[i]).0 as int]
    &&& forall|i: int|
        0 <= i < runs.len() && (#[trigger] runs[i]).1 < keys.len() ==> keys[runs[i].1 as int]
            != keys[runs[i].0 as int]
}

/// The runs found so far: all but maximality at the end, which is `cursor`.
spec fn runs_up_to<K>(keys: Seq<K>, runs: Seq<(usize, usize)>, cursor: int) -> bool {
    &&& 0 <= cursor <= keys.len()
    &&& (cursor == 0 <==> runs.len() == 0)
    &&& runs.len() > 0 ==> runs[0].0 == 0 && runs.last().1 == cursor
    &&& forall|i: int| 0 <= i < runs.len() ==> (#[trigger] runs[i]).0 < runs[i].1
    &&& forall|i: int| 1 <= i < runs.len() ==> runs[i - 1].1 == (#[trigger] runs[i]).0
    &&& forall|i: int, j: int|
        0 <= i < runs.len() && runs[i].0 <= j < runs[i].1 ==> #[trigger] keys[j] == keys[(
        #[trigger] runs[i]).0 as int]
    &&& forall|i: int|
        0 <= i < runs.len() && (#[trigger] runs[i]).1 < keys.len() ==> keys[runs[i].1 as int]
            != keys[runs[i].0 as int]
}

/// Cuts the normal prepass's items, keyed by mesh and sub-mesh, into batches
/// of one instanced draw each: the maximal runs of equal keys.
pub fn prepare_batches(keys: &Vec<(u64, u32)>) -> (r: Vec<(usize, usize)>)
    ensures
        maximal_runs(keys@, r@),
{
    let mut runs: Vec<(usize, usize)> = Vec::new();
    let mut cursor: usize = 0;
    while cursor < keys.len()
        invariant
            runs_up_to(keys@, runs@, cursor as int),
        decreases keys.len() - cursor,
    {
        let key = keys[cursor];
        let mut batch_end: usize = cursor + 1;
        while batch_end < keys.len() && keys[batch_end].0 == key.0 && keys[batch_end].1 == key.1
            invariant
                cursor < batch_end <= keys@.len(),
                key == keys@[cursor as int],
                forall|j: int| cursor <= j < batch_end ==> #[trigger] keys@[j] == key,
            decreases keys.len() - batch_end,
        {
            batch_end = batch_end + 1;
        }
        let ghost before = runs@;
        runs.push((cursor, batch_end));
        assert(runs@ == before.push((cursor, batch_end)));
        assert(runs@[runs@.len() - 1] == (cursor, batch_end));
        cursor = batch_end;
    }
    runs
}

/// Cuts the material prepass's items, keyed by draw function, into the
/// batches handed to one draw function each: the maximal runs of equal ids.
pub fn draw_function_batches(ids: &Vec<u32>) -> (r: Vec<(usize, usize)>)
    ensures
        maximal_runs(ids@, r@),
{
    let mut runs: Vec<(usize, usize)> = Vec::new();
    let mut cursor: usize = 0;
    while cursor < ids.len()
        invariant
            runs_up_to(ids@, runs@, cursor as int),
        decreases ids.len() - cursor,
    {
        let id = ids[cursor];
        let mut batch_end: usize = cursor + 1;
        while batch_end < ids.len() && ids[batch_end] == id
            invariant
                cursor < batch_end <= ids@.len(),
                id == ids@[cursor as int],
                forall|j: int| cursor <= j < batch_end ==> #[trigger] ids@[j] == id,
            decreases ids.len() - batch_end,
        {
            batch_end = batch_end + 1;
        }
        let ghost before = runs@;
        runs.push((cursor, batch_end));
        assert(runs@ == before.push((cursor, batch_end)));
        assert(runs@[runs@.len() - 1] == (cursor, batch_end));
        cursor = batch_end;
    }
    runs
}

/// The index range `start..end` a sub-mesh draws: its own indices, or the
/// whole mesh's where it counts none.
pub fn sub_mesh_index_range(mesh_index_count: u32, offset: u32, count: u32) -> (r: (u32, u32))
    requires
        count == 0 || offset + count <= u32::MAX,
    ensures
        count == 0 ==> r == (0u32, mesh_index_count),
        count != 0 ==> r.0 == offset && r.1 == offset + count,
{
    if count == 0 {
        (0, mesh_index_count)
    } else {
        (offset, offset + count)
    }
}

/// The part of a mesh that a batch draws.
#[derive(Clone, Copy, Debug, PartialEq, Eq, Structural)]
pub struct SubMeshRange {
    pub index_offset: u32,
    pub index_count: u32,
    pub vertex_offset: i32,
}

/// What one batch of the normal prepass draws.
#[derive(Clone, Copy, Debug, PartialEq, Eq, Structural)]
pub enum PrepassDraw {
    /// Nothing: its mesh, sub-mesh, pipeline or index buffer is missing.
    Skip,
    /// Indices `start..end` from `base_vertex`, once per item of the batch.
    Indexed { start: u32, end: u32, base_vertex: i32, instances: u32 },
    /// The mesh's first `vertices` vertices, once per item of the batch.
    Vertices { vertices: u32, instances: u32 },
}

/// Decides the draw of a normal prepass batch of `instances` items:
/// `sub_mesh` is `None` where the batch's mesh or sub-mesh is not found.
pub fn normal_prepass_draw(
    sub_mesh: Option<SubMeshRange>,
    pipeline_ready: bool,
    has_indices: bool,
    has_index_buffer: bool,
    mesh_index_count: u32,
    mesh_vertex_count: u32,
    instances: u32,
) -> (r: PrepassDraw)
    requires
        sub_mesh matches Some(s) ==> s.index_count == 0 || s.index_offset + s.index_count <= u32::MAX,
    ensures
        match sub_mesh {
            None => r == PrepassDraw::Skip,
            Some(s) => if !pipeline_ready || (has_indices && !has_index_buffer) {
                r == PrepassDraw::Skip
            } else if has_indices {
                r == (if s.index_count == 0 {
                    PrepassDraw::Indexed {
                        start: 0,
                        end: mesh_index_count,
                        base_vertex: s.vertex_offset,
                        instances,
                    }
                } else {
                    PrepassDraw::Indexed {
                        start: s.index_offset,
                        end: (s.index_offset + s.index_count) as u32,
                        base_vertex: s.vertex_offset,
                        instances,
                    }
                })
            } else {
                r == PrepassDraw::Vertices { vertices: mesh_vertex_count, instances }
            },
        },
{
    let s = match sub_mesh {
        None => {
            return PrepassDraw::Skip;
        },
        Some(s) => s,
    };
    if !pipeline_ready {
        return PrepassDraw::Skip;
    }
    if has_indices {
        if !has_index_buffer {
            return PrepassDraw::Skip;
        }
        let (start, end) = sub_mesh_index_range(mesh_index_count, s.index_offset, s.index_count);
        PrepassDraw::Indexed { start, end, base_vertex: s.vertex_offset, instances }
    } else {
        PrepassDraw::Vertices { vertices: mesh_vertex_count, instances }
    }
}

} // verus!
