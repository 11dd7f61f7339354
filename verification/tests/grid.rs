use rasterconv::compose::side_by_side;
use rasterconv::neighbors::get_neighbor_coordinates;
use rasterconv::Pixel;
use rasterconv::Raster;

fn gray(v: u8) -> Pixel {
    Pixel { r: v, g: v, b: v }
}

#[test]
fn neighbors_of_interior_cell() {
    let n = get_neighbor_coordinates(1, 1, 3, 3);
    assert_eq!(n, vec![(0, 1), (2, 1), (1, 0), (1, 2)]);
}

#[test]
fn neighbors_of_corner_cell() {
    let n = get_neighbor_coordinates(0, 0, 3, 3);
    assert_eq!(n, vec![(1, 0), (0, 1)]);
    let n = get_neighbor_coordinates(2, 2, 3, 3);
    assert_eq!(n, vec![(1, 2), (2, 1)]);
}

#[test]
fn neighbors_of_edge_cell() {
    let n = get_neighbor_coordinates(1, 0, 3, 3);
    assert_eq!(n, vec![(0, 0), (2, 0), (1, 1)]);
}

#[test]
fn neighbors_of_single_cell_grid() {
    let n = get_neighbor_coordinates(0, 0, 1, 1);
    assert_eq!(n, Vec::<(u32, u32)>::new());
}

#[test]
fn side_by_side_of_single_pixels() {
    let a = Raster::new(1, 1, gray(1));
    let b = Raster::new(1, 1, gray(2));
    let c = Raster::new(1, 1, gray(3));
    let out = side_by_side(&a, &b, &c);
    assert_eq!(out.width(), 3);
    assert_eq!(out.height(), 1);
    assert_eq!(out.get(0, 0), gray(1));
    assert_eq!(out.get(1, 0), gray(2));
    assert_eq!(out.get(2, 0), gray(3));
}

#[test]
fn side_by_side_keeps_each_region() {
    let mut a = Raster::new(2, 2, gray(10));
    let mut b = Raster::new(2, 2, gray(20));
    let mut c = Raster::new(2, 2, gray(30));
    a.set(1, 0, gray(11));
    b.set(0, 1, gray(21));
    c.set(1, 1, gray(31));
    let out = side_by_side(&a, &b, &c);
    assert_eq!(out.width(), 6);
    assert_eq!(out.height(), 2);
    for y in 0..2 {
        for x in 0..2 {
            assert_eq!(out.get(x, y), a.get(x, y));
            assert_eq!(out.get(x + 2, y), b.get(x, y));
            assert_eq!(out.get(x + 4, y), c.get(x, y));
        }
    }
}

#[test]
fn raster_get_set_roundtrip() {
    let mut r = Raster::new(4, 3, gray(0));
    r.set(3, 2, Pixel { r: 5, g: 6, b: 7 });
    assert_eq!(r.get(3, 2), Pixel { r: 5, g: 6, b: 7 });
    assert_eq!(r.get(0, 0), gray(0));
    assert_eq!(r.width(), 4);
    assert_eq!(r.height(), 3);
}
