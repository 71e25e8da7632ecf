//! Changing the stroke colour of one node.
//!
//! A request names a node by its id and gives a colour in hexadecimal
//! notation. It is validated before anything else: a request with a malformed
//! colour never gets near the store. A valid request is then applied under
//! exclusive access to the store, in one step: the store either holds the
//! scene as it was, or the scene with that one stroke repainted.

use crate::color::{hex_color_value, is_hex_color, parse_hex_color, Rgb};
use crate::scene::{
    has_node, ids_distinct, lemma_listed_stroke_has_node, lemma_position_unique,
    lemma_solid_stroke_listed, node_position, recolored, solid_strokes_of, NodeKind, NodeView,
    Paint, SceneStore, SolidStrokeView, StrokeStyle,
};
use std::time::{Duration, Instant};
use vstd::prelude::*;

verus! {

/// `std::time::Instant`, a reading of the clock. Nothing inside it is visible
/// here.
#[verifier::external_type_specification]
#[verifier::external_body]
pub struct ExInstant(std::time::Instant);

/// `Instant::elapsed`: the time that has passed since `started`. It depends on
/// when it is asked, so nothing is said of it.
#[verifier::external_body]
fn time_since(started: &Instant) -> (elapsed: Duration) {
    started.elapsed()
}

/// Why a mutation was refused.
#[derive(Clone, Copy, Debug, PartialEq, Eq, Structural)]
pub enum MutationError {
    /// The colour is not six hexadecimal digits after an optional `#`.
    InvalidColor,
    /// No node bears the id.
    NodeNotFound,
    /// The node is not a path with a stroke, and the resolver was told to
    /// refuse such targets.
    UnsupportedNodeType,
}

/// What the resolver does with a target that exists but has no stroke to
/// repaint.
#[derive(Clone, Copy, Debug, PartialEq, Eq, Structural)]
pub enum UnsupportedTarget {
    /// Change nothing and report success.
    Ignore,
    /// Change nothing and report `MutationError::UnsupportedNodeType`.
    Reject,
}

/// A validated request: the id of a node and the colour for its stroke.
#[derive(Clone, Debug, PartialEq, Eq)]
pub struct MutationRequest {
    pub id: String,
    pub color: Rgb,
}

/// The report of a mutation that went through.
#[derive(Debug, PartialEq, Eq)]
pub struct Confirmation {
    /// The id that was resolved.
    pub id: String,
    /// The colour that was applied.
    pub color: Rgb,
    /// The time from the arrival of the request to its completion.
    pub elapsed: Duration,
}

impl MutationRequest {
    /// Validates a request. It is accepted exactly when `stroke` is a colour
    /// in hexadecimal notation, and then carries the id unchanged and the
    /// colour that `stroke` spells.
    pub fn parse(id: &str, stroke: &str) -> (r: Result<MutationRequest, MutationError>)
        ensures
            r is Ok <==> is_hex_color(stroke@),
            r matches Ok(request) ==> request.id@ == id@ && request.color == hex_color_value(
                stroke@,
            ),
            r matches Err(e) ==> e == MutationError::InvalidColor,
    {
        match parse_hex_color(stroke) {
            Some(color) => Ok(MutationRequest { id: id.to_owned(), color }),
            None => Err(MutationError::InvalidColor),
        }
    }
}

/// Applies validated requests to a store.
#[derive(Clone, Copy, Debug, PartialEq, Eq, Structural)]
pub struct MutationResolver {
    pub on_unsupported: UnsupportedTarget,
}

impl MutationResolver {
    /// The place of the node that a request for `id` repaints, or the reason
    /// why the request is refused.
    pub open spec fn target(self, scene: Seq<NodeView>, id: Seq<char>) -> Result<
        int,
        MutationError,
    > {
        if !has_node(scene, id) {
            Err(MutationError::NodeNotFound)
        } else if self.on_unsupported == UnsupportedTarget::Reject && !scene[node_position(
            scene,
            id,
        )].kind.stroke_capable() {
            Err(MutationError::UnsupportedNodeType)
        } else {
            Ok(node_position(scene, id))
        }
    }

    /// The scene that a request for `id` and `color` leaves behind.
    pub open spec fn scene_after(self, scene: Seq<NodeView>, id: Seq<char>, color: Rgb) -> Seq<
        NodeView,
    > {
        match self.target(scene, id) {
            Ok(place) => recolored(scene, place, color),
            Err(_) => scene,
        }
    }

    /// What becomes of a request as it arrives, with its colour still in
    /// hexadecimal notation: the place of the node that it repaints, or the
    /// reason why it is refused. The colour is judged first.
    pub open spec fn verdict(self, scene: Seq<NodeView>, id: Seq<char>, stroke: Seq<char>) -> Result<
        int,
        MutationError,
    > {
        if !is_hex_color(stroke) {
            Err(MutationError::InvalidColor)
        } else {
            self.target(scene, id)
        }
    }

    /// The scene that a request leaves behind as it arrives, with its colour
    /// still in hexadecimal notation.
    pub open spec fn scene_after_submission(
        self,
        scene: Seq<NodeView>,
        id: Seq<char>,
        stroke: Seq<char>,
    ) -> Seq<NodeView> {
        if is_hex_color(stroke) {
            self.scene_after(scene, id, hex_color_value(stroke))
        } else {
            scene
        }
    }

    /// A resolver that reports success for a target without a stroke and
    /// leaves it alone.
    pub fn new() -> (resolver: MutationResolver)
        ensures
            resolver.on_unsupported == UnsupportedTarget::Ignore,
    {
        MutationResolver { on_unsupported: UnsupportedTarget::Ignore }
    }

    /// A resolver that refuses a target without a stroke.
    pub fn strict() -> (resolver: MutationResolver)
        ensures
            resolver.on_unsupported == UnsupportedTarget::Reject,
    {
        MutationResolver { on_unsupported: UnsupportedTarget::Reject }
    }

    /// Applies a request to the store, to which the caller has exclusive
    /// access. `started` is when the request arrived.
    ///
    /// The node is found through the index. Where no node bears the id the
    /// request is refused with `NodeNotFound`; where the node has no stroke
    /// and the resolver is strict, with `UnsupportedNodeType`. A refused
    /// request leaves the scene exactly as it was. Otherwise the stroke of
    /// that node, if it has one, is painted in the colour of the request,
    /// nothing else changes, and the confirmation names the id and the
    /// colour.
    pub fn apply(
        &self,
        store: &mut SceneStore,
        request: &MutationRequest,
        started: &Instant,
    ) -> (r: Result<Confirmation, MutationError>)
        ensures
            final(store)@ == self.scene_after(old(store)@, request.id@, request.color),
            final(store).scene_width() == old(store).scene_width(),
            final(store).scene_height() == old(store).scene_height(),
            r is Ok <==> self.target(old(store)@, request.id@) is Ok,
            r matches Ok(confirmation) ==> confirmation.id@ == request.id@ && confirmation.color
                == request.color,
            r matches Err(e) ==> self.target(old(store)@, request.id@) == Err::<int, MutationError>(
                e,
            ),
    {
        let handle = match store.find_node(request.id.as_str()) {
            Ok(handle) => handle,
            Err(_) => {
                return Err(MutationError::NodeNotFound);
            },
        };
        let capable = match store.node(handle) {
            Some(node) => node.kind.is_stroke_capable(),
            None => false,
        };
        if !capable {
            match self.on_unsupported {
                UnsupportedTarget::Reject => {
                    return Err(MutationError::UnsupportedNodeType);
                },
                UnsupportedTarget::Ignore => {},
            }
        }
        store.set_stroke(handle, request.color);
        Ok(confirm(request, time_since(started)))
    }

    /// Validates a request and applies it, for a caller that has exclusive
    /// access to the store already. The colour is checked before the store
    /// is looked at; a request refused for any reason leaves the scene
    /// exactly as it was.
    pub fn submit(&self, store: &mut SceneStore, id: &str, stroke: &str, started: &Instant) -> (r:
        Result<Confirmation, MutationError>)
        ensures
            final(store)@ == self.scene_after_submission(old(store)@, id@, stroke@),
            final(store).scene_width() == old(store).scene_width(),
            final(store).scene_height() == old(store).scene_height(),
            r is Ok <==> self.verdict(old(store)@, id@, stroke@) is Ok,
            r matches Ok(confirmation) ==> confirmation.id@ == id@ && confirmation.color
                == hex_color_value(stroke@),
            r matches Err(e) ==> self.verdict(old(store)@, id@, stroke@) == Err::<
                int,
                MutationError,
            >(e),
    {
        match MutationRequest::parse(id, stroke) {
            Ok(request) => self.apply(store, &request, started),
            Err(e) => Err(e),
        }
    }
}

/// A request that is refused, for a malformed colour, an unknown id or a
/// target that the resolver does not accept, leaves the scene as it was.
pub proof fn lemma_refusal_changes_nothing(
    resolver: MutationResolver,
    scene: Seq<NodeView>,
    id: Seq<char>,
    stroke: Seq<char>,
)
    requires
        resolver.verdict(scene, id, stroke) is Err,
    ensures
        resolver.scene_after_submission(scene, id, stroke) == scene,
        solid_strokes_of(resolver.scene_after_submission(scene, id, stroke)) == solid_strokes_of(
            scene,
        ),
{
}

/// After a request for a node with a stroke has gone through, a lookup of the
/// same id finds the same node, and its stroke is the colour of the request.
pub proof fn lemma_read_after_write(
    resolver: MutationResolver,
    scene: Seq<NodeView>,
    id: Seq<char>,
    color: Rgb,
)
    requires
        ids_distinct(scene),
        has_node(scene, id),
        scene[node_position(scene, id)].kind.stroke_capable(),
    ensures
        resolver.target(scene, id) is Ok,
        ({
            let after = resolver.scene_after(scene, id, color);
            &&& has_node(after, id)
            &&& node_position(after, id) == node_position(scene, id)
            &&& after[node_position(after, id)].kind == NodeKind::Path {
                stroke: Some(StrokeStyle { paint: Paint::Solid(color) }),
            }
        }),
{
    let place = node_position(scene, id);
    let after = resolver.scene_after(scene, id, color);
    lemma_mutation_keeps_shape(resolver, scene, id, color);
    assert(after[place].id == id);
    lemma_position_unique(after, id, place);
}

/// After a request for a node with a stroke has gone through, the strokes
/// that the renderer is told of list that node with the colour of the
/// request, and with no other colour.
pub proof fn lemma_repainted_stroke_is_listed(
    resolver: MutationResolver,
    scene: Seq<NodeView>,
    id: Seq<char>,
    color: Rgb,
)
    requires
        ids_distinct(scene),
        has_node(scene, id),
        scene[node_position(scene, id)].kind.stroke_capable(),
    ensures
        ({
            let listed = solid_strokes_of(resolver.scene_after(scene, id, color));
            &&& listed.contains(SolidStrokeView { id, color })
            &&& forall|stroke: SolidStrokeView| #[trigger]
                listed.contains(stroke) && stroke.id == id ==> stroke.color == color
        }),
{
    let after = resolver.scene_after(scene, id, color);
    let listed = solid_strokes_of(after);
    let place = node_position(scene, id);
    lemma_read_after_write(resolver, scene, id, color);
    lemma_mutation_keeps_shape(resolver, scene, id, color);
    assert(after[place].solid_stroke() == Some(SolidStrokeView { id, color }));
    lemma_solid_stroke_listed(after, place);
    assert forall|stroke: SolidStrokeView| #[trigger]
        listed.contains(stroke) && stroke.id == id implies stroke.color == color by {
        lemma_listed_stroke_has_node(after, stroke);
        let other = choose|other: int|
            0 <= other < after.len() && (#[trigger] after[other]).solid_stroke() == Some(stroke);
        assert(after[other].id == id);
        lemma_position_unique(after, id, other);
    }
}

/// A mutation changes at most the stroke of its target. The number of nodes,
/// their ids and their order stay, so every id is found where it was, ids
/// stay distinct, and every node but the target is as before.
pub proof fn lemma_mutation_keeps_shape(
    resolver: MutationResolver,
    scene: Seq<NodeView>,
    id: Seq<char>,
    color: Rgb,
)
    requires
        ids_distinct(scene),
    ensures
        ({
            let after = resolver.scene_after(scene, id, color);
            &&& after.len() == scene.len()
            &&& forall|i: int| 0 <= i < scene.len() ==> (#[trigger] after[i]).id == scene[i].id
            &&& forall|i: int|
                0 <= i < scene.len() && !(has_node(scene, id) && i == node_position(scene, id))
                    ==> #[trigger] after[i] == scene[i]
            &&& ids_distinct(after)
            &&& forall|other: Seq<char>| #[trigger]
                has_node(after, other) <==> has_node(scene, other)
            &&& forall|other: Seq<char>| #[trigger]
                has_node(scene, other) ==> node_position(after, other) == node_position(
                    scene,
                    other,
                )
        }),
{
    let after = resolver.scene_after(scene, id, color);
    assert(after.len() == scene.len());
    assert forall|i: int| 0 <= i < scene.len() implies (#[trigger] after[i]).id == scene[i].id by {}
    assert(ids_distinct(after)) by {
        assert forall|i: int, j: int|
            0 <= i < j < after.len() && (#[trigger] after[i]).id.len() > 0 implies after[i].id != (
            #[trigger] after[j]).id by {
            assert(scene[i].id != scene[j].id);
        }
    }
    assert forall|other: Seq<char>| #[trigger]
        has_node(after, other) <==> has_node(scene, other) by {
        if has_node(after, other) {
            let i = choose|i: int| 0 <= i < after.len() && (#[trigger] after[i]).id == other;
            assert(scene[i].id == other);
        }
        if has_node(scene, other) {
            let i = choose|i: int| 0 <= i < scene.len() && (#[trigger] scene[i]).id == other;
            assert(after[i].id == other);
        }
    }
    assert forall|other: Seq<char>| #[trigger] has_node(scene, other) implies node_position(
        after,
        other,
    ) == node_position(scene, other) by {
        let i = node_position(scene, other);
        assert(after[i].id == other);
        lemma_position_unique(after, other, i);
    }
}

/// Applying the same request twice leaves the scene that applying it once
/// leaves.
pub proof fn lemma_mutation_is_idempotent(
    resolver: MutationResolver,
    scene: Seq<NodeView>,
    id: Seq<char>,
    color: Rgb,
)
    requires
        ids_distinct(scene),
    ensures
        ({
            let once = resolver.scene_after(scene, id, color);
            resolver.scene_after(once, id, color) == once
        }),
{
    let once = resolver.scene_after(scene, id, color);
    lemma_mutation_keeps_shape(resolver, scene, id, color);
    if resolver.target(scene, id) is Ok {
        let place = node_position(scene, id);
        assert(has_node(once, id));
        assert(node_position(once, id) == place);
        assert(once[place].kind.stroke_capable() == scene[place].kind.stroke_capable());
        assert(resolver.scene_after(once, id, color) =~= once);
    } else {
        assert(has_node(once, id) == has_node(scene, id));
    }
}

/// The confirmation of a request that took `elapsed` to complete.
pub fn confirm(request: &MutationRequest, elapsed: Duration) -> (confirmation: Confirmation)
    ensures
        confirmation.id@ == request.id@,
        confirmation.color == request.color,
        confirmation.elapsed == elapsed,
{
    Confirmation { id: request.id.clone(), color: request.color, elapsed }
}

} // verus!
