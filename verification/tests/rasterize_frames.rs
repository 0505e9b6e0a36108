use nbody_core::frame::{rasterize, rasterize_point, GridDims, GridPoint, Rgb};

fn dims() -> GridDims {
    GridDims { width: 100, height: 100 }
}

#[test]
fn grid_well_formedness_check() {
    assert!(dims().is_wf());
    assert!(!GridDims { width: 0, height: 100 }.is_wf());
    assert!(!GridDims { width: 100, height: 0 }.is_wf());
    assert!(!GridDims { width: usize::MAX, height: 2 }.is_wf());
}

#[test]
fn in_bounds_point_maps_to_linear_index() {
    let p = GridPoint { x: 3, y: 2, rgb: Rgb { r: 10, g: 20, b: 30 } };
    let c = rasterize_point(&dims(), p);
    assert_eq!(c.index, (2 * 100 + 3) * 4);
    assert_eq!(c.rgb, Rgb { r: 10, g: 20, b: 30 });
}

#[test]
fn out_of_range_coordinates_clamp_to_the_far_edge() {
    let p = GridPoint { x: 150, y: 99, rgb: Rgb { r: 1, g: 1, b: 1 } };
    let c = rasterize_point(&dims(), p);
    assert_eq!(c.index, (99 * 100 + 99) * 4);

    let p = GridPoint { x: 100, y: 100, rgb: Rgb { r: 1, g: 1, b: 1 } };
    let c = rasterize_point(&dims(), p);
    assert_eq!(c.index, (99 * 100 + 99) * 4);
}

#[test]
fn origin_maps_to_index_zero() {
    let p = GridPoint { x: 0, y: 0, rgb: Rgb { r: 0, g: 0, b: 0 } };
    let c = rasterize_point(&dims(), p);
    assert_eq!(c.index, 0);
}

#[test]
fn rasterize_keeps_particle_order() {
    let points = vec![
        GridPoint { x: 1, y: 0, rgb: Rgb { r: 255, g: 0, b: 0 } },
        GridPoint { x: 0, y: 1, rgb: Rgb { r: 0, g: 255, b: 0 } },
        GridPoint { x: 2, y: 2, rgb: Rgb { r: 0, g: 0, b: 255 } },
    ];
    let frame = rasterize(&dims(), &points);
    assert_eq!(frame.len(), 3);
    assert_eq!(frame[0].index, 4);
    assert_eq!(frame[0].rgb, Rgb { r: 255, g: 0, b: 0 });
    assert_eq!(frame[1].index, 100 * 4);
    assert_eq!(frame[1].rgb, Rgb { r: 0, g: 255, b: 0 });
    assert_eq!(frame[2].index, (2 * 100 + 2) * 4);
    assert_eq!(frame[2].rgb, Rgb { r: 0, g: 0, b: 255 });
}

#[test]
fn rasterize_empty_set_gives_empty_frame() {
    let frame = rasterize(&dims(), &Vec::new());
    assert!(frame.is_empty());
}
