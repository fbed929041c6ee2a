use raymarch::{Cell, Scene};

fn gray(level: u8) -> Cell {
    Cell { a: 255, r: level, g: level, b: level }
}

#[test]
fn new_scene_is_640_by_480_and_blank() {
    let s = Scene::new();
    assert_eq!(s.width(), 640);
    assert_eq!(s.height(), 480);
    assert_eq!(s.cells().len(), 640 * 480 * 4);
    assert!(s.cells().iter().all(|&b| b == 0));
}

#[test]
fn tick_writes_gray_opaque_pixels() {
    let mut s = Scene::new();
    s.tick(|_x: usize, _y: usize| 77u8);
    let cells = s.cells();
    for px in cells.chunks(4) {
        assert_eq!(px, &[77, 77, 77, 255]);
    }
}

#[test]
fn tick_lays_pixels_out_row_major() {
    let mut s = Scene::new();
    s.tick(|x: usize, y: usize| ((x * 3 + y * 7) % 256) as u8);
    let w = s.width();
    for &(row, column) in &[(0usize, 0usize), (0, 639), (1, 0), (240, 320), (479, 639), (479, 0)] {
        let level = ((column * 3 + row * 7) % 256) as u8;
        assert_eq!(s.get_cell(row, column), gray(level));
        let k = (row * w + column) * 4;
        assert_eq!(&s.cells()[k..k + 4], &[level, level, level, 255]);
    }
}

#[test]
fn tick_passes_column_then_row() {
    let mut s = Scene::new();
    s.tick(|x: usize, y: usize| if x == 5 && y == 2 { 200 } else { 0 });
    assert_eq!(s.get_cell(2, 5), gray(200));
    assert_eq!(s.get_cell(5, 2), gray(0));
}

#[test]
fn same_shading_gives_identical_frames() {
    let shade = |x: usize, y: usize| ((x ^ y) % 251) as u8;
    let mut a = Scene::new();
    let mut b = Scene::new();
    a.tick(shade);
    b.tick(shade);
    assert_eq!(a.cells(), b.cells());
    let first = a.cells().to_vec();
    a.tick(shade);
    assert_eq!(a.cells(), &first[..]);
}

#[test]
fn earlier_frame_leaves_no_trace() {
    let mut a = Scene::new();
    a.tick(|x: usize, _y: usize| (x % 256) as u8);
    a.tick(|_x: usize, y: usize| (y % 256) as u8);
    let mut b = Scene::new();
    b.tick(|_x: usize, y: usize| (y % 256) as u8);
    assert_eq!(a.cells(), b.cells());
    assert_eq!(a.width(), 640);
    assert_eq!(a.height(), 480);
}

#[test]
fn extreme_levels_are_kept() {
    let mut s = Scene::new();
    s.tick(|x: usize, _y: usize| if x % 2 == 0 { 255 } else { 0 });
    assert_eq!(s.get_cell(10, 0), gray(255));
    assert_eq!(s.get_cell(10, 1), gray(0));
    assert_eq!(s.get_cell(479, 638), gray(255));
    assert_eq!(s.get_cell(479, 639), gray(0));
}

#[test]
fn different_shadings_give_different_frames() {
    let mut a = Scene::new();
    let mut b = Scene::new();
    a.tick(|_x: usize, y: usize| if y < 240 { 200 } else { 20 });
    b.tick(|_x: usize, y: usize| if y < 240 { 20 } else { 200 });
    assert_ne!(a.get_cell(0, 320), b.get_cell(0, 320));
    assert_ne!(a.get_cell(479, 320), b.get_cell(479, 320));
    assert_ne!(a.get_cell(0, 320), a.get_cell(479, 320));
}
