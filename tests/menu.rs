use raytris::falling_piece::Tetromino;
use raytris::menu::{Menu, Resolution};

#[test]
fn resolution_cycles() {
    assert_eq!(Resolution::Small.next(), Resolution::Medium);
    assert_eq!(Resolution::Medium.next(), Resolution::Big);
    assert_eq!(Resolution::Big.next(), Resolution::Fullscreen);
    assert_eq!(Resolution::Fullscreen.next(), Resolution::Small);
}

#[test]
fn resize_steps_through_window_sizes() {
    let mut menu = Menu::new();
    assert_eq!(menu.window_resolution, (640, 360));
    assert!(!menu.resize((1920, 1080)));
    assert_eq!(menu.window_resolution, (960, 540));
    assert!(!menu.resize((1920, 1080)));
    assert_eq!(menu.window_resolution, (1280, 720));
    assert!(menu.resize((1920, 1080)));
    assert_eq!(menu.window_resolution, (1920, 1080));
    assert!(!menu.resize((1920, 1080)));
    assert_eq!(menu.resolution, Resolution::Small);
    assert_eq!(menu.get_window_resolution((1, 1)), (640, 360));
}

#[test]
fn tetromino_colors() {
    assert_eq!(Tetromino::I.get_tetromino_color(), (49, 199, 239, 255));
    assert_eq!(Tetromino::Z.get_tetromino_color(), (239, 32, 41, 255));
    assert_eq!(Tetromino::Empty.get_tetromino_color(), (0, 0, 0, 0));
}
