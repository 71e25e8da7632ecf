//! The scene store: the nodes of one vector document, the style of each, and
//! an index from a node's id to its place.
//!
//! A scene is loaded once. After that its nodes, their ids and their order
//! never change; only the stroke paint of a path does. Reading takes
//! the store by shared reference, changing a stroke takes it by exclusive
//! reference, so a writer is alone with the store and readers never see a
//! stroke half changed.
//!
//! A node without an id has an empty id. Such nodes are kept, as they are
//! part of the document, but they cannot be looked up.

use crate::color::Rgb;
use vstd::hash_map::StringHashMap;
use vstd::prelude::*;

verus! {

/// What a stroke is painted with.
#[derive(Clone, Copy, Debug, PartialEq, Eq, Structural)]
pub enum Paint {
    /// One colour.
    Solid(Rgb),
    /// A gradient or a pattern, which this crate carries but never makes.
    Server,
}

/// The stroke of a path.
#[derive(Clone, Copy, Debug, PartialEq, Eq, Structural)]
pub struct StrokeStyle {
    pub paint: Paint,
}

/// What kind of node it is. Only a path can have a stroke, and need not.
#[derive(Clone, Copy, Debug, PartialEq, Eq, Structural)]
pub enum NodeKind {
    /// A shape, with its stroke if it has one.
    Path { stroke: Option<StrokeStyle> },
    /// A node that holds other nodes.
    Group,
    /// Anything else, such as an image or a text.
    Other,
}

impl NodeKind {
    /// Whether a stroke colour can be set on a node of this kind: it is a
    /// path that has a stroke.
    pub open spec fn stroke_capable(self) -> bool {
        self matches NodeKind::Path { stroke: Some(_) }
    }

    /// This kind with its stroke painted in `color`, where it has a stroke,
    /// and unchanged where it has none.
    pub open spec fn with_stroke(self, color: Rgb) -> NodeKind {
        if self.stroke_capable() {
            NodeKind::Path { stroke: Some(StrokeStyle { paint: Paint::Solid(color) }) }
        } else {
            self
        }
    }

    /// Whether a stroke colour can be set on a node of this kind.
    pub fn is_stroke_capable(&self) -> (b: bool)
        ensures
            b == self.stroke_capable(),
    {
        match self {
            NodeKind::Path { stroke: Some(_) } => true,
            _ => false,
        }
    }

    /// Paints the stroke in `color`, where there is one.
    pub fn paint_stroke(&self, color: Rgb) -> (kind: NodeKind)
        ensures
            kind == self.with_stroke(color),
    {
        match self {
            NodeKind::Path { stroke: Some(_) } => NodeKind::Path {
                stroke: Some(StrokeStyle { paint: Paint::Solid(color) }),
            },
            NodeKind::Path { stroke: None } => NodeKind::Path { stroke: None },
            NodeKind::Group => NodeKind::Group,
            NodeKind::Other => NodeKind::Other,
        }
    }
}

/// One node of the document.
#[derive(Clone, Debug, PartialEq, Eq)]
pub struct Node {
    pub id: String,
    pub kind: NodeKind,
}

/// A node as contracts see it.
pub struct NodeView {
    pub id: Seq<char>,
    pub kind: NodeKind,
}

impl View for Node {
    type V = NodeView;

    open spec fn view(&self) -> NodeView {
        NodeView { id: self.id@, kind: self.kind }
    }
}

impl NodeView {
    /// The colour that the renderer has to paint this node's stroke in, where
    /// that is for this crate to say: the node is a path, its stroke is one
    /// colour, and it has an id to be told by.
    pub open spec fn solid_stroke(self) -> Option<SolidStrokeView> {
        match self.kind {
            NodeKind::Path { stroke: Some(StrokeStyle { paint: Paint::Solid(color) }) } => {
                if self.id.len() > 0 {
                    Some(SolidStrokeView { id: self.id, color })
                } else {
                    None
                }
            },
            _ => None,
        }
    }
}

/// The id of a node and the one colour of its stroke.
#[derive(Clone, Debug, PartialEq, Eq)]
pub struct SolidStroke {
    pub id: String,
    pub color: Rgb,
}

/// A solid stroke as contracts see it.
pub struct SolidStrokeView {
    pub id: Seq<char>,
    pub color: Rgb,
}

impl View for SolidStroke {
    type V = SolidStrokeView;

    open spec fn view(&self) -> SolidStrokeView {
        SolidStrokeView { id: self.id@, color: self.color }
    }
}

/// The solid strokes of a vector as contracts see them.
pub open spec fn solid_stroke_views(strokes: Seq<SolidStroke>) -> Seq<SolidStrokeView> {
    Seq::new(strokes.len(), |i: int| strokes[i]@)
}

/// The solid strokes of a scene, one for each node that has one, in document
/// order.
pub open spec fn solid_strokes_of(scene: Seq<NodeView>) -> Seq<SolidStrokeView>
    decreases scene.len(),
{
    if scene.len() == 0 {
        Seq::empty()
    } else {
        let before = solid_strokes_of(scene.drop_last());
        match scene.last().solid_stroke() {
            Some(stroke) => before.push(stroke),
            None => before,
        }
    }
}

/// Every node that has a solid stroke is listed with it.
pub proof fn lemma_solid_stroke_listed(scene: Seq<NodeView>, place: int)
    requires
        0 <= place < scene.len(),
        scene[place].solid_stroke() is Some,
    ensures
        solid_strokes_of(scene).contains(scene[place].solid_stroke()->Some_0),
    decreases scene.len(),
{
    let stroke = scene[place].solid_stroke()->Some_0;
    let before = solid_strokes_of(scene.drop_last());
    if place == scene.len() - 1 {
        assert(before.push(stroke)[before.len() as int] == stroke);
    } else {
        assert(scene.drop_last()[place] == scene[place]);
        lemma_solid_stroke_listed(scene.drop_last(), place);
        let found = choose|i: int| 0 <= i < before.len() && before[i] == stroke;
        assert(solid_strokes_of(scene)[found] == stroke);
    }
}

/// Every solid stroke that is listed is that of a node of the scene.
pub proof fn lemma_listed_stroke_has_node(scene: Seq<NodeView>, stroke: SolidStrokeView)
    requires
        solid_strokes_of(scene).contains(stroke),
    ensures
        exists|place: int|
            0 <= place < scene.len() && (#[trigger] scene[place]).solid_stroke() == Some(stroke),
    decreases scene.len(),
{
    if scene.len() > 0 {
        let before = solid_strokes_of(scene.drop_last());
        let found = choose|i: int| 0 <= i < solid_strokes_of(scene).len() && solid_strokes_of(
            scene,
        )[i] == stroke;
        if found < before.len() {
            assert(before[found] == stroke);
            lemma_listed_stroke_has_node(scene.drop_last(), stroke);
            let place = choose|place: int|
                0 <= place < scene.drop_last().len() && (#[trigger] scene.drop_last()[place]).solid_stroke()
                    == Some(stroke);
            assert(scene[place].solid_stroke() == Some(stroke));
        } else {
            assert(scene[scene.len() - 1].solid_stroke() == Some(stroke));
        }
    }
}

/// The nodes of a vector as contracts see them.
pub open spec fn node_views(nodes: Seq<Node>) -> Seq<NodeView> {
    Seq::new(nodes.len(), |i: int| nodes[i]@)
}

/// Whether the scene has a node with this id. No node is found by the empty
/// id.
pub open spec fn has_node(scene: Seq<NodeView>, id: Seq<char>) -> bool {
    id.len() > 0 && exists|i: int| 0 <= i < scene.len() && (#[trigger] scene[i]).id == id
}

/// The place of the node with this id, where the scene has one.
pub open spec fn node_position(scene: Seq<NodeView>, id: Seq<char>) -> int {
    choose|i: int| 0 <= i < scene.len() && (#[trigger] scene[i]).id == id
}

/// Whether no id other than the empty one is borne by two nodes.
pub open spec fn ids_distinct(scene: Seq<NodeView>) -> bool {
    forall|i: int, j: int|
        0 <= i < j < scene.len() && (#[trigger] scene[i]).id.len() > 0 ==> scene[i].id != (
        #[trigger] scene[j]).id
}

/// The scene in which the node at `position` has its stroke painted in
/// `color` if it has a stroke, and everything else is as before.
pub open spec fn recolored(scene: Seq<NodeView>, position: int, color: Rgb) -> Seq<NodeView> {
    scene.update(
        position,
        NodeView { id: scene[position].id, kind: scene[position].kind.with_stroke(color) },
    )
}

/// In a scene of distinct ids, the place of a node is the only place where its
/// id occurs.
pub proof fn lemma_position_unique(scene: Seq<NodeView>, id: Seq<char>, place: int)
    requires
        ids_distinct(scene),
        id.len() > 0,
        0 <= place < scene.len(),
        scene[place].id == id,
    ensures
        has_node(scene, id),
        node_position(scene, id) == place,
{
    let found = node_position(scene, id);
    assert(0 <= found < scene.len() && scene[found].id == id);
    if found < place {
        assert(scene[found].id != scene[place].id);
    } else if place < found {
        assert(scene[place].id != scene[found].id);
    }
}

/// The place of a node in its scene. It stays good for as long as the store
/// lives, since nodes are neither added nor removed.
#[derive(Clone, Copy, Debug, PartialEq, Eq, Structural)]
pub struct NodeHandle {
    pub index: usize,
}

/// Why a scene was refused at load time.
#[derive(Clone, Copy, Debug, PartialEq, Eq, Structural)]
pub enum SceneLoadError {
    /// Two nodes bear the same id.
    DuplicateId,
}

/// The answer to a lookup of an id that no node bears.
#[derive(Clone, Copy, Debug, PartialEq, Eq, Structural)]
pub struct NodeNotFound;

/// The scene with its index.
pub struct SceneStore {
    nodes: Vec<Node>,
    index: StringHashMap<usize>,
    width: u32,
    height: u32,
}

impl View for SceneStore {
    type V = Seq<NodeView>;

    closed spec fn view(&self) -> Seq<NodeView> {
        node_views(self.nodes@)
    }
}

/// Whether `index` maps exactly the ids of the first `count` nodes, each to
/// its place.
spec fn indexes(index: Map<Seq<char>, usize>, nodes: Seq<Node>, count: int) -> bool {
    &&& forall|i: int|
        0 <= i < count && (#[trigger] nodes[i]).id@.len() > 0 ==> index.contains_key(nodes[i].id@)
            && index[nodes[i].id@] == i
    &&& forall|k: Seq<char>| #[trigger]
        index.contains_key(k) ==> k.len() > 0 && 0 <= index[k] < count && nodes[index[k] as int].id@
            == k
}

/// Nodes that an index covers whole bear distinct ids: two nodes with one id
/// would have the index give two places for it.
proof fn lemma_indexed_ids_distinct(index: Map<Seq<char>, usize>, nodes: Seq<Node>)
    requires
        indexes(index, nodes, nodes.len() as int),
    ensures
        ids_distinct(node_views(nodes)),
{
    let scene = node_views(nodes);
    assert forall|a: int, b: int|
        0 <= a < b < scene.len() && (#[trigger] scene[a]).id.len() > 0 implies scene[a].id != (
        #[trigger] scene[b]).id by {
        if scene[a].id == scene[b].id {
            assert(index[nodes[a].id@] == a);
            assert(index[nodes[b].id@] == b);
        }
    }
}

impl SceneStore {
    /// The index maps every id other than the empty one to the place of
    /// its node, and nothing else. Every store that exists is well formed.
    #[verifier::type_invariant]
    pub closed spec fn well_formed(&self) -> bool {
        indexes(self.index@, self.nodes@, self.nodes@.len() as int)
    }

    /// The ids of a well-formed store are distinct.
    pub proof fn lemma_ids_distinct(&self)
        requires
            self.well_formed(),
        ensures
            ids_distinct(self@),
    {
        lemma_indexed_ids_distinct(self.index@, self.nodes@);
    }

    /// The width of the scene, fixed when it was loaded.
    pub closed spec fn scene_width(&self) -> u32 {
        self.width
    }

    /// The height of the scene, fixed when it was loaded.
    pub closed spec fn scene_height(&self) -> u32 {
        self.height
    }

    /// Takes the nodes of a document, in document order, and builds the index.
    /// Succeeds exactly when no two nodes share an id other than the empty
    /// one.
    pub fn load(nodes: Vec<Node>, width: u32, height: u32) -> (r: Result<
        SceneStore,
        SceneLoadError,
    >)
        ensures
            r is Ok <==> ids_distinct(node_views(nodes@)),
            r matches Ok(store) ==> {
                &&& store@ == node_views(nodes@)
                &&& store.scene_width() == width
                &&& store.scene_height() == height
            },
            r matches Err(e) ==> e == SceneLoadError::DuplicateId,
    {
        let mut index: StringHashMap<usize> = StringHashMap::new();
        let mut i: usize = 0;
        while i < nodes.len()
            invariant
                0 <= i <= nodes.len(),
                indexes(index@, nodes@, i as int),
            decreases nodes.len() - i,
        {
            let id = nodes[i].id.as_str();
            if !id.is_empty() {
                if index.contains_key(id) {
                    proof {
                        let first = index@[id@] as int;
                        let scene = node_views(nodes@);
                        assert(scene[first].id == scene[i as int].id);
                    }
                    return Err(SceneLoadError::DuplicateId);
                }
                index.insert(nodes[i].id.clone(), i);
            }
            i = i + 1;
        }
        proof {
            lemma_indexed_ids_distinct(index@, nodes@);
        }
        Ok(SceneStore { nodes, index, width, height })
    }

    /// The number of nodes.
    pub fn len(&self) -> (n: usize)
        ensures
            n == self@.len(),
    {
        self.nodes.len()
    }

    /// The width of the scene.
    pub fn width(&self) -> (w: u32)
        ensures
            w == self.scene_width(),
    {
        self.width
    }

    /// The height of the scene.
    pub fn height(&self) -> (h: u32)
        ensures
            h == self.scene_height(),
    {
        self.height
    }

    /// All nodes in document order, for reading.
    pub fn nodes(&self) -> (nodes: &Vec<Node>)
        ensures
            node_views(nodes@) == self@,
    {
        &self.nodes
    }

    /// What the renderer has to know of the strokes: the id and the colour of
    /// every path that has an id and a stroke of one colour, in document
    /// order.
    pub fn solid_strokes(&self) -> (strokes: Vec<SolidStroke>)
        ensures
            solid_stroke_views(strokes@) == solid_strokes_of(self@),
    {
        let mut strokes: Vec<SolidStroke> = Vec::new();
        let mut i: usize = 0;
        while i < self.nodes.len()
            invariant
                0 <= i <= self.nodes.len(),
                solid_stroke_views(strokes@) == solid_strokes_of(self@.take(i as int)),
            decreases self.nodes.len() - i,
        {
            proof {
                let upto = self@.take(i + 1);
                assert(upto.drop_last() == self@.take(i as int));
                assert(upto.last() == self@[i as int]);
            }
            let node = &self.nodes[i];
            match node.kind {
                NodeKind::Path { stroke: Some(StrokeStyle { paint: Paint::Solid(color) }) } => {
                    if !node.id.as_str().is_empty() {
                        let ghost before = solid_stroke_views(strokes@);
                        strokes.push(SolidStroke { id: node.id.clone(), color });
                        assert(solid_stroke_views(strokes@) == before.push(
                            SolidStrokeView { id: node.id@, color },
                        ));
                    }
                },
                _ => {},
            }
            i = i + 1;
        }
        assert(self@.take(i as int) == self@);
        strokes
    }

    /// Looks a node up by its id, through the index. Finds it exactly when
    /// the scene has a node with this id.
    pub fn find_node(&self, id: &str) -> (r: Result<NodeHandle, NodeNotFound>)
        ensures
            r is Ok <==> has_node(self@, id@),
            r matches Ok(handle) ==> {
                &&& handle.index < self@.len()
                &&& handle.index == node_position(self@, id@)
                &&& self@[handle.index as int].id == id@
            },
    {
        proof {
            use_type_invariant(self);
            self.lemma_ids_distinct();
        }
        match self.index.get(id) {
            Some(place) => {
                let handle = NodeHandle { index: *place };
                assert(self@[handle.index as int].id == id@);
                proof {
                    lemma_position_unique(self@, id@, handle.index as int);
                }
                Ok(handle)
            },
            None => {
                assert(!has_node(self@, id@)) by {
                    if has_node(self@, id@) {
                        let i = choose|i: int| 0 <= i < self@.len() && (#[trigger] self@[i]).id == id@;
                        assert(self.nodes@[i].id@ == id@);
                    }
                }
                Err(NodeNotFound)
            },
        }
    }

    /// The node at a handle, or `None` where the handle points past the
    /// scene.
    pub fn node(&self, handle: NodeHandle) -> (r: Option<&Node>)
        ensures
            r is Some <==> handle.index < self@.len(),
            r matches Some(node) ==> node@ == self@[handle.index as int],
    {
        if handle.index < self.nodes.len() {
            Some(&self.nodes[handle.index])
        } else {
            None
        }
    }

    /// Paints the stroke of the node at `handle` in `color`. A node that has
    /// no stroke is left as it is, and so is the scene where the handle points
    /// past it. Says whether a stroke was painted.
    pub fn set_stroke(&mut self, handle: NodeHandle, color: Rgb) -> (painted: bool)
        ensures
            handle.index < old(self)@.len() ==> final(self)@ == recolored(
                old(self)@,
                handle.index as int,
                color,
            ),
            handle.index >= old(self)@.len() ==> final(self)@ == old(self)@,
            painted == (handle.index < old(self)@.len() && old(self)@[handle.index as int].kind.stroke_capable()),
            final(self).scene_width() == old(self).scene_width(),
            final(self).scene_height() == old(self).scene_height(),
    {
        proof {
            use_type_invariant(&*self);
        }
        if handle.index >= self.nodes.len() {
            return false;
        }
        let painted = self.nodes[handle.index].kind.is_stroke_capable();
        let kind = self.nodes[handle.index].kind.paint_stroke(color);
        set_kind(&mut self.nodes, handle.index, kind);
        assert(self@ == recolored(old(self)@, handle.index as int, color));
        painted
    }
}

/// Replaces the kind of one node of a vector and leaves everything else.
fn set_kind(nodes: &mut Vec<Node>, place: usize, kind: NodeKind)
    requires
        place < old(nodes)@.len(),
    ensures
        final(nodes)@.len() == old(nodes)@.len(),
        forall|i: int|
            0 <= i < old(nodes)@.len() ==> (#[trigger] final(nodes)@[i]).id == old(nodes)@[i].id,
        forall|i: int|
            0 <= i < old(nodes)@.len() && i != place ==> (#[trigger] final(nodes)@[i]).kind == old(
                nodes,
            )@[i].kind,
        final(nodes)@[place as int].kind == kind,
    no_unwind
{
    nodes[place].kind = kind;
}

} // verus!
