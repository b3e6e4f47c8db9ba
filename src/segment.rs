//! Splitting a frame sequence into nodes of constant topology.
use vstd::prelude::*;

use crate::attrib::MaterialGroups;

verus! {

/// The connectivity of a mesh.
#[derive(Clone, Debug)]
pub enum Topology {
    /// A triangle mesh: a vertex count and three vertex indices per face.
    Triangles { num_vertices: usize, indices: Vec<[usize; 3]> },
    /// A point cloud: a vertex count.
    Points { num_vertices: usize },
}

/// Whether two triangle lists are equal, triangle by triangle.
pub open spec fn same_triangles(a: Seq<[usize; 3]>, b: Seq<[usize; 3]>) -> bool {
    &&& a.len() == b.len()
    &&& forall|i: int| 0 <= i < a.len() ==> #[trigger] a[i]@ == b[i]@
}

/// Whether two meshes have the same topology: both point clouds with the same
/// vertex count, or both triangle meshes with the same vertex count and the
/// same index buffer.
pub open spec fn same_topology(a: Topology, b: Topology) -> bool {
    match (a, b) {
        (
            Topology::Triangles { num_vertices: na, indices: ia },
            Topology::Triangles { num_vertices: nb, indices: ib },
        ) => na == nb && same_triangles(ia@, ib@),
        (Topology::Points { num_vertices: na }, Topology::Points { num_vertices: nb }) => na == nb,
        _ => false,
    }
}

/// Whether two material assignments are equal: both absent, or the same ids
/// with the same face lists.
pub open spec fn same_material_ids(a: Option<MaterialGroups>, b: Option<MaterialGroups>) -> bool {
    match (a, b) {
        (None, None) => true,
        (Some(x), Some(y)) => x.entries() == y.entries(),
        _ => false,
    }
}

impl Topology {
    /// Returns true if `other` has the same topology as `self`.
    #[verifier::loop_isolation(false)]
    pub fn eq_topo(&self, other: &Topology) -> (r: bool)
        ensures
            r == same_topology(*self, *other),
    {
        match (self, other) {
            (
                Topology::Triangles { num_vertices: na, indices: ia },
                Topology::Triangles { num_vertices: nb, indices: ib },
            ) => {
                if *na != *nb || ia.len() != ib.len() {
                    return false;
                }
                let mut i: usize = 0;
                while i < ia.len()
                    invariant
                        i <= ia@.len(),
                        ia@.len() == ib@.len(),
                        forall|j: int| 0 <= j < i ==> #[trigger] ia@[j]@ == ib@[j]@,
                    decreases ia@.len() - i,
                {
                    let a = ia[i];
                    let b = ib[i];
                    if a[0] != b[0] || a[1] != b[1] || a[2] != b[2] {
                        assert(ia@[i as int]@ != ib@[i as int]@);
                        return false;
                    }
                    assert(a@ =~= b@);
                    i = i + 1;
                }
                true
            },
            (Topology::Points { num_vertices: na }, Topology::Points { num_vertices: nb }) => *na
                == *nb,
            _ => false,
        }
    }
}

fn same_usizes(a: &Vec<usize>, b: &Vec<usize>) -> (r: bool)
    ensures
        r == (a@ == b@),
{
    if a.len() != b.len() {
        return false;
    }
    let mut i: usize = 0;
    while i < a.len()
        invariant
            i <= a@.len(),
            a@.len() == b@.len(),
            forall|j: int| 0 <= j < i ==> a@[j] == b@[j],
        decreases a@.len() - i,
    {
        if a[i] != b[i] {
            return false;
        }
        i = i + 1;
    }
    assert(a@ =~= b@);
    true
}

/// Whether two material assignments are equal.
#[verifier::loop_isolation(false)]
pub fn eq_material_ids(a: &Option<MaterialGroups>, b: &Option<MaterialGroups>) -> (r: bool)
    ensures
        r == same_material_ids(*a, *b),
{
    match (a, b) {
        (None, None) => true,
        (Some(x), Some(y)) => {
            let n = x.num_groups();
            if n != y.num_groups() {
                return false;
            }
            let mut k: usize = 0;
            while k < n
                invariant
                    k <= n,
                    n == x.spec_num_groups(),
                    n == y.spec_num_groups(),
                    forall|j: int| 0 <= j < k ==> #[trigger] x.entries()[j] == y.entries()[j],
                decreases n - k,
            {
                if x.id(k) != y.id(k) || !same_usizes(x.faces(k), y.faces(k)) {
                    assert(x.entries()[k as int] != y.entries()[k as int]);
                    return false;
                }
                assert(x.entries()[k as int] == y.entries()[k as int]);
                k = k + 1;
            }
            assert(x.entries() =~= y.entries());
            true
        },
        _ => false,
    }
}

/// One input frame: the mesh name, the frame number, the mesh topology and
/// its material assignment, with local materials already made global.
#[derive(Debug)]
pub struct Frame {
    pub name: String,
    pub frame: u32,
    pub topology: Topology,
    pub material_ids: Option<MaterialGroups>,
}

/// Where the displacements of a morph target come from.
#[derive(Clone, Copy, Debug, PartialEq, Eq, Structural)]
pub enum MorphSource {
    /// The positions of the frame at this index minus those of the node's base frame.
    Frame(usize),
    /// Every vertex moved to the origin: minus the positions of the base frame.
    Vanish,
}

/// A planned morph target: its frame number and its displacements.
#[derive(Clone, Copy, Debug, PartialEq, Eq, Structural)]
pub struct MorphPlan {
    pub frame: u32,
    pub source: MorphSource,
}

/// A planned node: the index of its base frame, that frame's number, and its
/// morph targets in time order.
#[derive(Clone, Debug)]
pub struct NodePlan {
    pub base: usize,
    pub first_frame: u32,
    pub morphs: Vec<MorphPlan>,
}

/// Whether frame `b` continues the node of frame `a`: same name, same
/// topology and same material assignment.
pub open spec fn same_run(a: Frame, b: Frame) -> bool {
    &&& a.name@ == b.name@
    &&& same_topology(a.topology, b.topology)
    &&& same_material_ids(a.material_ids, b.material_ids)
}

/// Whether frame `i` starts a new node.
pub open spec fn is_start(frames: Seq<Frame>, i: int) -> bool {
    i == 0 || !same_run(frames[i - 1], frames[i])
}

/// One past the last frame of node `n`.
pub open spec fn node_end(nodes: Seq<NodePlan>, n: int, total: nat) -> nat {
    if n + 1 < nodes.len() {
        nodes[n + 1].base as nat
    } else {
        total
    }
}

/// Whether frame `i` lies in node `n` after its base frame.
pub open spec fn in_node(nodes: Seq<NodePlan>, n: int, i: int, total: nat) -> bool {
    0 <= n < nodes.len() && nodes[n].base < i < node_end(nodes, n, total)
}

/// Whether index `i` lies after start `m` and before the next start, or
/// before `total` when `m` is the last start.
pub open spec fn in_gap(starts: Seq<usize>, m: int, i: int, total: nat) -> bool {
    &&& 0 <= m < starts.len()
    &&& starts[m] < i < total
    &&& (m + 1 < starts.len() ==> i < starts[m + 1])
}

/// The morph targets of the node made of frames `base..end`: each later
/// frame in order and, with vanishing frames, one frame to the origin just
/// before the first frame (unless it is frame zero) and one just after the
/// last frame when another node follows.
pub open spec fn planned_morphs(
    frames: Seq<Frame>,
    base: nat,
    end: nat,
    vanish: bool,
    has_next: bool,
) -> Seq<MorphPlan> {
    let first = frames[base as int].frame;
    let last = frames[end - 1].frame;
    let lead = if vanish && first > 0 {
        seq![MorphPlan { frame: (first - 1) as u32, source: MorphSource::Vanish }]
    } else {
        Seq::empty()
    };
    let later = Seq::new(
        (end - base - 1) as nat,
        |j: int|
            MorphPlan {
                frame: frames[base + 1 + j].frame,
                source: MorphSource::Frame((base + 1 + j) as usize),
            },
    );
    let trail = if vanish && has_next && last < u32::MAX {
        seq![MorphPlan { frame: (last + 1) as u32, source: MorphSource::Vanish }]
    } else {
        Seq::empty()
    };
    lead + later + trail
}

/// Whether `nodes` splits `frames` into maximal runs of frames that continue
/// one another, in order, with each node's morph targets as planned.
pub open spec fn is_segmentation(frames: Seq<Frame>, vanish: bool, nodes: Seq<NodePlan>) -> bool {
    &&& (nodes.len() == 0 <==> frames.len() == 0)
    &&& (nodes.len() > 0 ==> nodes[0].base == 0)
    &&& forall|n: int|
        0 <= n < nodes.len() ==> #[trigger] nodes[n].base < node_end(nodes, n, frames.len())
            <= frames.len()
    &&& forall|n: int| 0 <= n < nodes.len() ==> is_start(frames, #[trigger] nodes[n].base as int)
    &&& forall|n: int, i: int|
        #[trigger] in_node(nodes, n, i, frames.len()) ==> !is_start(frames, i)
    &&& forall|n: int|
        0 <= n < nodes.len() ==> #[trigger] nodes[n].first_frame == frames[nodes[n].base as int].frame
    &&& forall|n: int|
        0 <= n < nodes.len() ==> #[trigger] nodes[n].morphs@ == planned_morphs(
            frames,
            nodes[n].base as nat,
            node_end(nodes, n, frames.len()),
            vanish,
            n + 1 < nodes.len(),
        )
}

fn same_run_exec(a: &Frame, b: &Frame) -> (r: bool)
    ensures
        r == same_run(*a, *b),
{
    a.name == b.name && a.topology.eq_topo(&b.topology) && eq_material_ids(
        &a.material_ids,
        &b.material_ids,
    )
}

/// Indices of the frames that start a node.
fn node_starts(frames: &Vec<Frame>) -> (starts: Vec<usize>)
    ensures
        starts@.len() == 0 <==> frames@.len() == 0,
        starts@.len() > 0 ==> starts@[0] == 0,
        forall|m: int| 0 <= m < starts@.len() ==> is_start(frames@, #[trigger] starts@[m] as int),
        forall|m: int| 0 <= m < starts@.len() ==> #[trigger] starts@[m] < frames@.len(),
        forall|m: int|
            0 <= m < starts@.len() - 1 ==> #[trigger] starts@[m] < starts@[m + 1],
        forall|m: int, i: int| #[trigger] in_gap(starts@, m, i, frames@.len()) ==> !is_start(frames@, i),
{
    let mut starts: Vec<usize> = Vec::new();
    if frames.len() == 0 {
        return starts;
    }
    starts.push(0);
    let mut i: usize = 1;
    while i < frames.len()
        invariant
            1 <= i <= frames@.len(),
            starts@.len() > 0,
            starts@[0] == 0,
            forall|m: int| 0 <= m < starts@.len() ==> is_start(frames@, #[trigger] starts@[m] as int),
            forall|m: int| 0 <= m < starts@.len() ==> #[trigger] starts@[m] < i,
            forall|m: int|
                0 <= m < starts@.len() - 1 ==> #[trigger] starts@[m] < starts@[m + 1],
            forall|m: int, j: int| #[trigger] in_gap(starts@, m, j, i as nat) ==> !is_start(frames@, j),
        decreases frames@.len() - i,
    {
        let next = i + 1;
        if !same_run_exec(&frames[i - 1], &frames[i]) {
            let ghost prev = starts@;
            starts.push(i);
            assert forall|m: int, j: int| #[trigger] in_gap(starts@, m, j, next as nat) implies !is_start(
                frames@,
                j,
            ) by {
                assert(m < prev.len());
                assert(starts@[m] == prev[m]);
                if m + 1 < prev.len() {
                    assert(starts@[m + 1] == prev[m + 1]);
                } else {
                    assert(starts@[m + 1] == i);
                }
                assert(in_gap(prev, m, j, i as nat));
            }
        } else {
            assert forall|m: int, j: int| #[trigger] in_gap(starts@, m, j, next as nat) implies !is_start(
                frames@,
                j,
            ) by {
                if j < i {
                    assert(in_gap(starts@, m, j, i as nat));
                }
            }
        }
        i = next;
    }
    starts
}

/// The planned morph targets of the node made of frames `base..end`.
fn node_morphs(frames: &Vec<Frame>, base: usize, end: usize, vanish: bool, has_next: bool) -> (r: Vec<
    MorphPlan,
>)
    requires
        base < end <= frames@.len(),
    ensures
        r@ == planned_morphs(frames@, base as nat, end as nat, vanish, has_next),
{
    let first = frames[base].frame;
    let last = frames[end - 1].frame;
    let mut morphs: Vec<MorphPlan> = Vec::new();
    if vanish && first > 0 {
        morphs.push(MorphPlan { frame: first - 1, source: MorphSource::Vanish });
    }
    let ghost lead = morphs@;
    let mut j: usize = base + 1;
    while j < end
        invariant
            base < end <= frames@.len(),
            base + 1 <= j <= end,
            morphs@ == lead + Seq::new(
                (j - base - 1) as nat,
                |t: int|
                    MorphPlan {
                        frame: frames@[base + 1 + t].frame,
                        source: MorphSource::Frame((base + 1 + t) as usize),
                    },
            ),
        decreases end - j,
    {
        morphs.push(MorphPlan { frame: frames[j].frame, source: MorphSource::Frame(j) });
        j = j + 1;
        assert(morphs@ =~= lead + Seq::new(
            (j - base - 1) as nat,
            |t: int|
                MorphPlan {
                    frame: frames@[base + 1 + t].frame,
                    source: MorphSource::Frame((base + 1 + t) as usize),
                },
        ));
    }
    if vanish && has_next && last < u32::MAX {
        morphs.push(MorphPlan { frame: last + 1, source: MorphSource::Vanish });
    }
    proof {
        reveal(planned_morphs);
    }
    assert(morphs@ =~= planned_morphs(frames@, base as nat, end as nat, vanish, has_next));
    morphs
}

/// Splits a frame sequence into nodes: a new node starts at the first frame
/// and wherever the name, the topology or the material assignment changes
/// from the previous frame; every other frame becomes a morph target of the
/// current node. With `insert_vanishing_frames`, each node also gets a frame
/// that moves every vertex to the origin one frame before its first frame
/// (unless that is frame zero) and one frame after its last frame when
/// another node follows.
pub fn into_nodes(frames: &Vec<Frame>, insert_vanishing_frames: bool) -> (nodes: Vec<NodePlan>)
    ensures
        is_segmentation(frames@, insert_vanishing_frames, nodes@),
{
    let starts = node_starts(frames);
    let mut nodes: Vec<NodePlan> = Vec::new();
    let mut n: usize = 0;
    while n < starts.len()
        invariant
            n <= starts@.len(),
            nodes@.len() == n,
            starts@.len() == 0 <==> frames@.len() == 0,
            starts@.len() > 0 ==> starts@[0] == 0,
            forall|m: int| 0 <= m < starts@.len() ==> #[trigger] starts@[m] < frames@.len(),
            forall|m: int| 0 <= m < starts@.len() - 1 ==> #[trigger] starts@[m] < starts@[m + 1],
            forall|m: int, i: int| #[trigger] in_gap(starts@, m, i, frames@.len()) ==> !is_start(frames@, i),
            forall|m: int| 0 <= m < starts@.len() ==> is_start(frames@, #[trigger] starts@[m] as int),
            forall|m: int| 0 <= m < n ==> #[trigger] nodes@[m].base == starts@[m],
            forall|m: int|
                0 <= m < n ==> #[trigger] nodes@[m].first_frame == frames@[starts@[m] as int].frame,
            forall|m: int|
                0 <= m < n ==> #[trigger] nodes@[m].morphs@ == planned_morphs(
                    frames@,
                    starts@[m] as nat,
                    if m + 1 < starts@.len() {
                        starts@[m + 1] as nat
                    } else {
                        frames@.len()
                    },
                    insert_vanishing_frames,
                    m + 1 < starts@.len(),
                ),
        decreases starts@.len() - n,
    {
        let base = starts[n];
        let has_next = n + 1 < starts.len();
        let end = if has_next {
            starts[n + 1]
        } else {
            frames.len()
        };
        let morphs = node_morphs(frames, base, end, insert_vanishing_frames, has_next);
        let first = frames[base].frame;
        let next = n + 1;
        let ghost prev_nodes = nodes@;
        let ghost planned = morphs@;
        nodes.push(NodePlan { base, first_frame: first, morphs });
        assert(nodes@[n as int].morphs@ == planned);
        assert(end as nat == (if n + 1 < starts@.len() {
            starts@[n + 1] as nat
        } else {
            frames@.len()
        }));
        assert forall|m: int| 0 <= m < next implies #[trigger] nodes@[m].base == starts@[m] by {
            if m < n {
                assert(nodes@[m] == prev_nodes[m]);
            }
        }
        assert forall|m: int| 0 <= m < next implies #[trigger] nodes@[m].first_frame
            == frames@[starts@[m] as int].frame by {
            if m < n {
                assert(nodes@[m] == prev_nodes[m]);
                assert(prev_nodes[m].first_frame == frames@[starts@[m] as int].frame);
            }
        }
        assert forall|m: int| 0 <= m < next implies #[trigger] nodes@[m].morphs@ == planned_morphs(
            frames@,
            starts@[m] as nat,
            if m + 1 < starts@.len() {
                starts@[m + 1] as nat
            } else {
                frames@.len()
            },
            insert_vanishing_frames,
            m + 1 < starts@.len(),
        ) by {
            if m < n {
                assert(nodes@[m] == prev_nodes[m]);
                assert(prev_nodes[m].morphs@ == planned_morphs(
                    frames@,
                    starts@[m] as nat,
                    if m + 1 < starts@.len() {
                        starts@[m + 1] as nat
                    } else {
                        frames@.len()
                    },
                    insert_vanishing_frames,
                    m + 1 < starts@.len(),
                ));
            }
        }
        n = next;
    }
    proof {
        assert forall|m: int| 0 <= m < nodes@.len() implies node_end(nodes@, m, frames@.len()) == (
        if m + 1 < starts@.len() {
            starts@[m + 1] as nat
        } else {
            frames@.len()
        }) by {}
        assert forall|m: int| 0 <= m < nodes@.len() implies #[trigger] nodes@[m].base < node_end(
            nodes@,
            m,
            frames@.len(),
        ) <= frames@.len() by {
            assert(nodes@[m].base == starts@[m]);
            if m + 1 < starts@.len() {
                assert(starts@[m] < starts@[m + 1]);
            }
        }
        assert forall|m: int| 0 <= m < nodes@.len() implies is_start(
            frames@,
            #[trigger] nodes@[m].base as int,
        ) by {
            assert(nodes@[m].base == starts@[m]);
        }
        assert forall|m: int, i: int| #[trigger] in_node(nodes@, m, i, frames@.len()) implies !is_start(
            frames@,
            i,
        ) by {
            assert(nodes@[m].base == starts@[m]);
            assert(in_gap(starts@, m, i, frames@.len()));
        }
    }
    nodes
}

/// Segmenting a sequence of frames that all continue one another gives one
/// node based on the first frame, whose morph targets are the other frames in
/// order, each displaced from the first frame.
pub proof fn lemma_single_run(frames: Seq<Frame>, nodes: Seq<NodePlan>)
    requires
        frames.len() >= 1,
        forall|i: int| 1 <= i < frames.len() ==> same_run(frames[i - 1], #[trigger] frames[i]),
        is_segmentation(frames, false, nodes),
    ensures
        nodes.len() == 1,
        nodes[0].base == 0,
        nodes[0].first_frame == frames[0].frame,
        nodes[0].morphs@.len() == frames.len() - 1,
        forall|i: int|
            0 <= i < frames.len() - 1 ==> #[trigger] nodes[0].morphs@[i] == (MorphPlan {
                frame: frames[i + 1].frame,
                source: MorphSource::Frame((i + 1) as usize),
            }),
{
    if nodes.len() > 1 {
        let b = nodes[1].base as int;
        assert(is_start(frames, nodes[1].base as int));
        assert(nodes[0].base < node_end(nodes, 0, frames.len()));
        assert(node_end(nodes, 0, frames.len()) == b);
        assert(0 < b < frames.len());
        assert(same_run(frames[b - 1], frames[b]));
    }
    assert(nodes.len() == 1);
    assert(node_end(nodes, 0, frames.len()) == frames.len());
    assert(nodes[0].first_frame == frames[0].frame);
    assert(nodes[0].morphs@ == planned_morphs(frames, 0, frames.len(), false, false));
    reveal(planned_morphs);
    assert(planned_morphs(frames, 0, frames.len(), false, false) =~= Seq::new(
        (frames.len() - 1) as nat,
        |j: int|
            MorphPlan {
                frame: frames[1 + j].frame,
                source: MorphSource::Frame((1 + j) as usize),
            },
    ));
}

} // verus!
