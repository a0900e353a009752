use trender::Draw;
use trender::Rgb;
use trender::SurfaceError;
use trender::cell;
use trender::d2_map_cell;
use trender::d2_path;
use trender::fill_colum_cell;
use trender::fill_colum_real_cell;
use trender::fill_row_cell;
use trender::fill_screen_cell;
use trender::real_cell;
use trender::rgb;
use trender::row_test_cell;
use trender::screen_test_cell;
use trender::square_pixel_cells;

fn dark_blue() -> Rgb {
    rgb(0, 0, 128)
}

fn red() -> Rgb {
    rgb(255, 0, 0)
}

fn dims() -> Option<(u16, u16)> {
    Some((80, 24))
}

fn positions(ds: &[Draw]) -> Vec<(u16, u16)> {
    ds.iter().map(|d| (d.x, d.y)).collect()
}

#[test]
fn real_cell_test() {
    assert_eq!(real_cell(1, 1, dark_blue()), Draw { x: 1, y: 1, color: dark_blue() });
    assert_eq!(real_cell(0, 1, red()), Draw { x: 0, y: 1, color: red() });

    let one = fill_colum_cell(1, dark_blue(), dims()).unwrap();
    assert_eq!(one.len(), 48);
    for (i, d) in one.iter().enumerate() {
        assert_eq!(d.x, if i < 24 { 1 } else { 2 });
        assert_eq!(d.y, (i % 24) as u16);
        assert_eq!(d.color, dark_blue());
    }
    let two = fill_colum_cell(2, red(), dims()).unwrap();
    assert_eq!(two.len(), 48);
    for (i, d) in two.iter().enumerate() {
        assert_eq!(d.x, if i < 24 { 3 } else { 4 });
        assert_eq!(d.color, red());
    }
}

#[test]
fn cell_test() {
    let a = cell(1, 1, dark_blue());
    assert_eq!(a, vec![Draw { x: 1, y: 1, color: dark_blue() }, Draw {
        x: 2,
        y: 1,
        color: dark_blue(),
    }]);
    let b = cell(2, 1, red());
    assert_eq!(positions(&b), vec![(3, 1), (4, 1)]);
    let c = cell(2, 2, dark_blue());
    assert_eq!(positions(&c), vec![(3, 2), (4, 2)]);
    let d = cell(3, 2, red());
    assert_eq!(positions(&d), vec![(5, 2), (6, 2)]);
}

#[test]
fn fill_row_cell_test() {
    let one = fill_row_cell(1, dark_blue(), dims()).unwrap();
    assert_eq!(one.len(), 80);
    for (i, d) in one.iter().enumerate() {
        assert_eq!(d.y, 1);
        assert_eq!(d.color, dark_blue());
        let x = (i / 2) as u16;
        let expected = if i % 2 == 0 {
            if x == 0 { 0 } else { 2 * x - 1 }
        } else {
            2 * x
        };
        assert_eq!(d.x, expected);
    }
    let two = fill_row_cell(2, red(), dims()).unwrap();
    assert_eq!(two.len(), 80);
    assert!(two.iter().all(|d| d.y == 2 && d.color == red()));
}

#[test]
fn fill_colum_real_cell_test() {
    let one = fill_colum_real_cell(1, dark_blue(), dims()).unwrap();
    assert_eq!(one.len(), 24);
    for (y, d) in one.iter().enumerate() {
        assert_eq!(*d, Draw { x: 1, y: y as u16, color: dark_blue() });
    }
    let two = fill_colum_real_cell(2, red(), dims()).unwrap();
    assert_eq!(two.len(), 24);
    for (y, d) in two.iter().enumerate() {
        assert_eq!(*d, Draw { x: 2, y: y as u16, color: red() });
    }
}

#[test]
fn fill_colum_cell_test() {
    let one = fill_colum_cell(1, dark_blue(), dims()).unwrap();
    let mut expected: Vec<(u16, u16)> = Vec::new();
    for y in 0..24u16 {
        expected.push((1, y));
    }
    for y in 0..24u16 {
        expected.push((2, y));
    }
    assert_eq!(positions(&one), expected);
    let two = fill_colum_cell(2, red(), dims()).unwrap();
    assert_eq!(two.len(), 48);
    assert!(two.iter().all(|d| d.color == red()));
}

#[test]
fn fill_screen_test() {
    let all = fill_screen_cell(rgb(255, 255, 255), dims()).unwrap();
    assert_eq!(all.len(), 24 * 80);
    for (i, d) in all.iter().enumerate() {
        assert_eq!(d.y, (i / 80) as u16);
        assert_eq!(d.color, rgb(255, 255, 255));
    }
    let first_row: Vec<(u16, u16)> = all[..80].iter().map(|d| (d.x, d.y)).collect();
    let wanted = fill_row_cell(0, rgb(255, 255, 255), dims()).unwrap();
    assert_eq!(first_row, positions(&wanted));
}

#[test]
fn square_pixel_examples() {
    assert_eq!(square_pixel_cells(1, 1), ((1, 1), (2, 1)));
    assert_eq!(square_pixel_cells(0, 5), ((0, 5), (0, 5)));
}

#[test]
fn square_pixel_general_shape() {
    for x in [0u16, 1, 2, 1000, 32767] {
        let ((x0, y0), (x1, y1)) = square_pixel_cells(x, 7);
        assert_eq!(y0, 7);
        assert_eq!(y1, 7);
        assert_eq!(x1, 2 * x);
        assert_eq!(x0, (2 * x).saturating_sub(1));
    }
}

#[test]
fn square_pixel_saturates() {
    assert_eq!(square_pixel_cells(40000, 3), ((65534, 3), (65535, 3)));
    assert_eq!(square_pixel_cells(u16::MAX, 0), ((65534, 0), (65535, 0)));
}

#[test]
fn degenerate_path_draws_one_point() {
    let ds = d2_path(&[(0, 0)], rgb(10, 20, 30));
    assert_eq!(positions(&ds), vec![(0, 0), (0, 0)]);
    assert!(ds.iter().all(|d| d.color == rgb(10, 20, 30)));
}

#[test]
fn path_draws_each_point_in_order() {
    let pts = [(1u16, 1u16), (2, 2), (5, 1)];
    let ds = d2_path(&pts, red());
    assert_eq!(ds.len(), 2 * pts.len());
    assert_eq!(positions(&ds), vec![(1, 1), (2, 1), (3, 2), (4, 2), (9, 1), (10, 1)]);
}

#[test]
fn map_points_margin_bias() {
    let coords = [(0.0f64, 0.0f64), (1.5, 2.5)];
    let pts: Vec<(u16, u16)> = coords
        .iter()
        .map(|&(x, y)| ((x + 1.0).floor() as u16, (y + 1.0).floor() as u16))
        .collect();
    assert_eq!(pts, vec![(1, 1), (2, 3)]);
    let ds = d2_map_cell(&pts);
    assert_eq!(positions(&ds), vec![(1, 1), (2, 1), (3, 3), (4, 3)]);
    assert!(ds.iter().all(|d| d.color == rgb(100, 100, 255)));
}

#[test]
fn fills_draw_nothing_without_dimensions() {
    assert_eq!(fill_row_cell(1, red(), None), Err(SurfaceError::Unavailable));
    assert_eq!(fill_colum_real_cell(1, red(), None), Err(SurfaceError::Unavailable));
    assert_eq!(fill_colum_cell(1, red(), None), Err(SurfaceError::Unavailable));
    assert_eq!(fill_screen_cell(red(), None), Err(SurfaceError::Unavailable));
    assert_eq!(row_test_cell(1, None), Err(SurfaceError::Unavailable));
    assert_eq!(screen_test_cell(None), Err(SurfaceError::Unavailable));
}

#[test]
fn random_row_keeps_row_positions() {
    let ds = row_test_cell(2, Some((6, 5))).unwrap();
    assert_eq!(positions(&ds), vec![(0, 2), (0, 2), (1, 2), (2, 2), (3, 2), (4, 2)]);
}

#[test]
fn random_screen_sweeps_from_one() {
    let ds = screen_test_cell(Some((6, 4))).unwrap();
    let mut expected: Vec<(u16, u16)> = Vec::new();
    for y in 1..4u16 {
        expected.push((1, y));
        expected.push((2, y));
        expected.push((3, y));
        expected.push((4, y));
    }
    assert_eq!(positions(&ds), expected);
}

#[test]
fn square_draws_nothing() {
    let ds = trender::square([0, 0], [5, 5], red(), dark_blue());
    assert!(ds.is_empty());
}

#[test]
fn rgb_keeps_channels() {
    let c = rgb(7, 8, 9);
    assert_eq!(c, Rgb { r: 7, g: 8, b: 9 });
}
