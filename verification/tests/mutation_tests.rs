use std::time::{Duration, Instant};
use svg_tiles::color::Rgb;
use svg_tiles::mutation::{
    confirm, MutationError, MutationRequest, MutationResolver, UnsupportedTarget,
};
use svg_tiles::scene::{Node, NodeHandle, NodeKind, Paint, SceneStore, SolidStroke, StrokeStyle};

fn solid(red: u8, green: u8, blue: u8) -> NodeKind {
    NodeKind::Path { stroke: Some(StrokeStyle { paint: Paint::Solid(Rgb { red, green, blue }) }) }
}

fn node(id: &str, kind: NodeKind) -> Node {
    Node { id: id.to_string(), kind }
}

fn sample() -> Vec<Node> {
    vec![
        node("roads", NodeKind::Group),
        node("12162", solid(10, 20, 30)),
        node("12163", solid(10, 20, 30)),
        node("outline", NodeKind::Path { stroke: None }),
        node("logo", NodeKind::Other),
    ]
}

fn store() -> SceneStore {
    SceneStore::load(sample(), 1024, 768).unwrap()
}

#[test]
fn update_of_existing_path_is_confirmed_and_visible() {
    let mut store = store();
    let started = Instant::now();
    let confirmation =
        MutationResolver::new().submit(&mut store, "12162", "#FF0000", &started).unwrap();
    assert_eq!(confirmation.id, "12162");
    assert_eq!(confirmation.color, Rgb { red: 255, green: 0, blue: 0 });
    let handle = store.find_node("12162").unwrap();
    assert_eq!(store.node(handle).unwrap().kind, solid(255, 0, 0));
    let mut expected = sample();
    expected[1].kind = solid(255, 0, 0);
    assert_eq!(store.nodes(), &expected);
}

#[test]
fn update_of_unknown_id_is_refused_and_changes_nothing() {
    let mut store = store();
    let started = Instant::now();
    let refusal = MutationResolver::new().submit(&mut store, "does-not-exist", "#00FF00", &started);
    assert_eq!(refusal, Err(MutationError::NodeNotFound));
    assert_eq!(store.nodes(), &sample());
}

#[test]
fn update_with_malformed_colour_is_refused_and_changes_nothing() {
    let mut store = store();
    let started = Instant::now();
    for stroke in ["", "#", "red", "#FF000", "#FF00000", "#GG0000", "FF 000"] {
        let refusal = MutationResolver::new().submit(&mut store, "12162", stroke, &started);
        assert_eq!(refusal, Err(MutationError::InvalidColor));
        assert_eq!(store.nodes(), &sample());
    }
}

#[test]
fn colour_is_judged_before_the_id() {
    let mut store = store();
    let started = Instant::now();
    let refusal = MutationResolver::new().submit(&mut store, "does-not-exist", "nope", &started);
    assert_eq!(refusal, Err(MutationError::InvalidColor));
}

#[test]
fn empty_id_is_never_found() {
    let mut store = SceneStore::load(vec![node("", solid(1, 1, 1))], 1, 1).unwrap();
    let started = Instant::now();
    let refusal = MutationResolver::new().submit(&mut store, "", "#00FF00", &started);
    assert_eq!(refusal, Err(MutationError::NodeNotFound));
    assert_eq!(store.node(NodeHandle { index: 0 }).unwrap().kind, solid(1, 1, 1));
}

#[test]
fn request_parse_keeps_id_and_reads_colour() {
    assert_eq!(
        MutationRequest::parse("12162", "ff8000"),
        Ok(MutationRequest { id: "12162".to_string(), color: Rgb { red: 255, green: 128, blue: 0 } })
    );
    assert_eq!(MutationRequest::parse("12162", "#ff800"), Err(MutationError::InvalidColor));
}

#[test]
fn target_without_stroke_is_a_silent_success_by_default() {
    let resolver = MutationResolver::new();
    assert_eq!(resolver.on_unsupported, UnsupportedTarget::Ignore);
    let started = Instant::now();
    for id in ["roads", "outline", "logo"] {
        let mut store = store();
        let confirmation = resolver.submit(&mut store, id, "#123456", &started).unwrap();
        assert_eq!(confirmation.id, id);
        assert_eq!(confirmation.color, Rgb { red: 0x12, green: 0x34, blue: 0x56 });
        assert_eq!(store.nodes(), &sample());
    }
}

#[test]
fn strict_resolver_refuses_target_without_stroke() {
    let resolver = MutationResolver::strict();
    assert_eq!(resolver.on_unsupported, UnsupportedTarget::Reject);
    let started = Instant::now();
    for id in ["roads", "outline", "logo"] {
        let mut store = store();
        let refusal = resolver.submit(&mut store, id, "#123456", &started);
        assert_eq!(refusal, Err(MutationError::UnsupportedNodeType));
        assert_eq!(store.nodes(), &sample());
    }
}

#[test]
fn strict_resolver_repaints_and_misses_like_the_default() {
    let resolver = MutationResolver::strict();
    let started = Instant::now();
    let mut store = store();
    assert!(resolver.submit(&mut store, "12163", "#0000ff", &started).is_ok());
    assert_eq!(store.node(NodeHandle { index: 2 }).unwrap().kind, solid(0, 0, 255));
    assert_eq!(
        resolver.submit(&mut store, "nobody", "#0000ff", &started),
        Err(MutationError::NodeNotFound)
    );
}

#[test]
fn apply_takes_a_validated_request() {
    let mut store = store();
    let started = Instant::now();
    let request = MutationRequest::parse("12163", "#0a0b0c").unwrap();
    let confirmation = MutationResolver::new().apply(&mut store, &request, &started).unwrap();
    assert_eq!(confirmation.id, "12163");
    assert_eq!(confirmation.color, Rgb { red: 10, green: 11, blue: 12 });
    let mut expected = sample();
    expected[2].kind = solid(10, 11, 12);
    assert_eq!(store.nodes(), &expected);
}

#[test]
fn only_the_target_changes() {
    let mut store = store();
    let started = Instant::now();
    MutationResolver::new().submit(&mut store, "12162", "#ffffff", &started).unwrap();
    assert_eq!(store.node(NodeHandle { index: 2 }).unwrap(), &sample()[2]);
    assert_eq!(store.len(), 5);
    assert_eq!((store.width(), store.height()), (1024, 768));
}

#[test]
fn same_request_twice_is_the_same_as_once() {
    let mut once = store();
    let mut twice = store();
    let started = Instant::now();
    let resolver = MutationResolver::new();
    resolver.submit(&mut once, "12162", "#abcdef", &started).unwrap();
    resolver.submit(&mut twice, "12162", "#abcdef", &started).unwrap();
    resolver.submit(&mut twice, "12162", "#abcdef", &started).unwrap();
    assert_eq!(once.nodes(), twice.nodes());
}

#[test]
fn later_write_wins() {
    let mut store = store();
    let started = Instant::now();
    let resolver = MutationResolver::new();
    resolver.submit(&mut store, "12162", "#111111", &started).unwrap();
    resolver.submit(&mut store, "12162", "#222222", &started).unwrap();
    assert_eq!(store.node(NodeHandle { index: 1 }).unwrap().kind, solid(0x22, 0x22, 0x22));
}

#[test]
fn confirmation_carries_the_elapsed_time_it_is_given() {
    let request = MutationRequest::parse("12162", "#010203").unwrap();
    let confirmation = confirm(&request, Duration::from_micros(1500));
    assert_eq!(confirmation.id, "12162");
    assert_eq!(confirmation.color, Rgb { red: 1, green: 2, blue: 3 });
    assert_eq!(confirmation.elapsed, Duration::from_micros(1500));
}

#[test]
fn elapsed_time_counts_from_the_arrival() {
    let mut store = store();
    let started = Instant::now().checked_sub(Duration::from_millis(20)).unwrap();
    let confirmation =
        MutationResolver::new().submit(&mut store, "12162", "#FF0000", &started).unwrap();
    assert!(confirmation.elapsed >= Duration::from_millis(20));
    assert!(confirmation.elapsed <= started.elapsed());
}

#[test]
fn repainted_stroke_is_what_the_renderer_is_told() {
    let mut store = store();
    let started = Instant::now();
    let resolver = MutationResolver::new();
    let grey = Rgb { red: 10, green: 20, blue: 30 };
    let red = Rgb { red: 255, green: 0, blue: 0 };
    assert_eq!(
        store.solid_strokes(),
        vec![
            SolidStroke { id: "12162".to_string(), color: grey },
            SolidStroke { id: "12163".to_string(), color: grey },
        ]
    );
    resolver.submit(&mut store, "12162", "#FF0000", &started).unwrap();
    assert_eq!(
        store.solid_strokes(),
        vec![
            SolidStroke { id: "12162".to_string(), color: red },
            SolidStroke { id: "12163".to_string(), color: grey },
        ]
    );
    let listed = store.solid_strokes();
    assert!(resolver.submit(&mut store, "nobody", "#00FF00", &started).is_err());
    assert!(resolver.submit(&mut store, "12163", "green", &started).is_err());
    assert!(resolver.submit(&mut store, "outline", "#00FF00", &started).is_ok());
    assert_eq!(store.solid_strokes(), listed);
}
