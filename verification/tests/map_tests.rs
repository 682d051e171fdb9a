use catties::map::{IndexError, IntegrityError, Layer, Rect, Tile, Tiles};

fn tile(id: u32) -> Tile {
    Tile {
        id,
        tag: String::from("tile"),
        rect: Rect { x: 8 * id, y: 0, w: 8, h: 8, o: 0 },
        solid: false,
        transparent: false,
    }
}

fn catalog(n: u32) -> Tiles {
    let mut v = Vec::new();
    for i in 0..n {
        v.push(tile(i));
    }
    Tiles::new(v)
}

#[test]
fn get_succeeds_below_length() {
    let c = catalog(4);
    assert_eq!(c.len(), 4);
    for i in 0..4 {
        let t = c.get(i).unwrap();
        assert_eq!(t.id, i);
    }
}

#[test]
fn get_fails_at_length() {
    let c = catalog(4);
    assert!(matches!(c.get(4), Err(IndexError)));
    assert!(matches!(c.get(100), Err(IndexError)));
    assert_eq!(c.get(3).unwrap().id, 3);
}

#[test]
fn get_on_empty_catalog_fails() {
    let c = catalog(0);
    assert!(matches!(c.get(0), Err(IndexError)));
}

#[test]
fn fresh_layer_passes_health_check() {
    let c = catalog(1);
    let layer = Layer::new(&c, 0, 4, 3);
    assert_eq!(layer.width, 4);
    assert_eq!(layer.height, 3);
    assert_eq!(layer.data.len(), 12);
    assert!(layer.data.iter().all(|&v| v == 0));
    assert!(layer.healh_check().is_ok());
}

#[test]
fn fresh_empty_layer_over_empty_catalog_passes() {
    let c = catalog(0);
    let layer = Layer::new(&c, 0, 0, 0);
    assert!(layer.healh_check().is_ok());
}

#[test]
fn empty_catalog_nonempty_grid_fails_at_first_cell() {
    let c = catalog(0);
    let layer = Layer::new(&c, 0, 2, 2);
    assert_eq!(
        layer.healh_check(),
        Err(IntegrityError::BadCell { value: 0, x: 0, y: 0 })
    );
}

#[test]
fn health_check_reports_first_bad_cell() {
    let c = catalog(3);
    let mut layer = Layer::new(&c, 0, 3, 2);
    layer.data[4] = 7;
    layer.data[3] = 5;
    assert_eq!(
        layer.healh_check(),
        Err(IntegrityError::BadCell { value: 5, x: 0, y: 1 })
    );
}

#[test]
fn health_check_rejects_resized_grid() {
    let c = catalog(3);
    let mut layer = Layer::new(&c, 0, 2, 2);
    layer.data.push(0);
    assert_eq!(layer.healh_check(), Err(IntegrityError::BadSize));
}

#[test]
fn pattern_is_a_noop_below_two_entries() {
    for n in 0..2 {
        let c = catalog(n);
        let mut layer = Layer::new(&c, 1, 3, 3);
        layer.pattern();
        assert!(layer.data.iter().all(|&v| v == 0));
    }
}

#[test]
fn pattern_is_idempotent() {
    let c = catalog(5);
    let mut layer = Layer::new(&c, 1, 4, 4);
    layer.pattern();
    let first = layer.data.clone();
    layer.pattern();
    assert_eq!(layer.data, first);
}

#[test]
fn pattern_with_zero_stacking_order_has_no_border() {
    let c = catalog(4);
    let mut layer = Layer::new(&c, 0, 3, 3);
    layer.pattern();
    for (i, &v) in layer.data.iter().enumerate() {
        assert_eq!(v, (i as u32 % 2) + 2);
        assert_ne!(v, 1);
    }
}

#[test]
fn pattern_border_scenario() {
    let c = catalog(4);
    let mut layer = Layer::new(&c, 1, 3, 3);
    layer.pattern();
    assert_eq!(layer.data, vec![2, 3, 1, 3, 2, 1, 1, 1, 1]);
    assert!(layer.healh_check().is_ok());
}
