use termdash::level::{resolve_collider, resolve_field, unknown_prefab, NO_COLLIDER};
use termdash::level::{AudioVisualizer, VisualizerConfig};

#[test]
fn bar_count_is_clamped() {
    assert_eq!(AudioVisualizer { bar_count: 0 }.shown_bar_count(), 16);
    assert_eq!(AudioVisualizer { bar_count: 64 }.shown_bar_count(), 64);
    assert_eq!(AudioVisualizer { bar_count: 1000 }.shown_bar_count(), 160);
}

#[test]
fn disabled_visualizer_spawns_nothing() {
    let visualizer = AudioVisualizer { bar_count: 64 };
    assert_eq!(visualizer.bars_to_spawn(&VisualizerConfig { enabled: false }), 0);
    assert_eq!(visualizer.bars_to_spawn(&VisualizerConfig { enabled: true }), 64);
}

#[test]
fn object_fields_fall_back_to_prefab() {
    assert_eq!(resolve_field(Some(1u8), Some(2), "shape"), Ok(1));
    assert_eq!(resolve_field(None, Some(2u8), "shape"), Ok(2));
    assert_eq!(
        resolve_field::<u8>(None, None, "behavior"),
        Err("missing behavior".to_string())
    );
    assert_eq!(unknown_prefab("spike"), "Unknown prefab: spike");
}

#[test]
fn collider_falls_back_to_prefab_then_shape() {
    let (own, prefab, shape) = ("own", "prefab", "shape");
    assert_eq!(resolve_collider(Some(&own), Some(&prefab), Some(&shape)), Ok(&own));
    assert_eq!(resolve_collider(None, Some(&prefab), Some(&shape)), Ok(&prefab));
    assert_eq!(resolve_collider(None, None, Some(&shape)), Ok(&shape));
    assert_eq!(resolve_collider::<&str>(None, None, None), Err(NO_COLLIDER));
    assert_eq!(NO_COLLIDER, "non-shape objects should have a collider");
}
