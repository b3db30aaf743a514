use img_viewer::rgba::RgbaImage;
use img_viewer::viewer::{KeyCode, Viewer, ViewerAction, ViewerEvent};

fn fresh_viewer() -> Viewer {
    let data: Vec<u8> = (0u8..16).collect();
    let img = RgbaImage::new(2, 2, data).unwrap();
    Viewer::new(img, 2, 2)
}

#[test]
fn close_request_asks_for_exit() {
    let mut v = fresh_viewer();
    let before = v.image().data().clone();
    assert_eq!(v.handle_event(ViewerEvent::CloseRequested), ViewerAction::Exit);
    assert_eq!(v.image().data(), &before);
}

#[test]
fn resize_changes_only_the_surface() {
    let mut v = fresh_viewer();
    let before = v.image().data().clone();
    let action = v.handle_event(ViewerEvent::Resized { width: 640, height: 480 });
    assert_eq!(action, ViewerAction::ResizeSurface { width: 640, height: 480 });
    assert_eq!(v.surface_width(), 640);
    assert_eq!(v.surface_height(), 480);
    assert_eq!(v.image().data(), &before);
}

#[test]
fn pressed_c_flips_horizontally() {
    let mut v = fresh_viewer();
    let action = v.handle_event(ViewerEvent::Key { pressed: true, key: KeyCode::C });
    assert_eq!(action, ViewerAction::Render);
    assert_eq!(
        v.image().data(),
        &vec![4, 5, 6, 7, 0, 1, 2, 3, 12, 13, 14, 15, 8, 9, 10, 11]
    );
}

#[test]
fn pressed_x_flips_vertically() {
    let mut v = fresh_viewer();
    let action = v.handle_event(ViewerEvent::Key { pressed: true, key: KeyCode::X });
    assert_eq!(action, ViewerAction::Render);
    assert_eq!(
        v.image().data(),
        &vec![8, 9, 10, 11, 12, 13, 14, 15, 0, 1, 2, 3, 4, 5, 6, 7]
    );
}

#[test]
fn pressed_z_rotates() {
    let mut v = fresh_viewer();
    let action = v.handle_event(ViewerEvent::Key { pressed: true, key: KeyCode::Z });
    assert_eq!(action, ViewerAction::Render);
    assert_eq!(
        v.image().data(),
        &vec![12, 13, 14, 15, 8, 9, 10, 11, 4, 5, 6, 7, 0, 1, 2, 3]
    );
}

#[test]
fn released_key_is_ignored() {
    let mut v = fresh_viewer();
    let before = v.image().data().clone();
    let action = v.handle_event(ViewerEvent::Key { pressed: false, key: KeyCode::C });
    assert_eq!(action, ViewerAction::Ignore);
    assert_eq!(v.image().data(), &before);
}

#[test]
fn unmapped_key_is_ignored() {
    let mut v = fresh_viewer();
    let before = v.image().data().clone();
    let action = v.handle_event(ViewerEvent::Key { pressed: true, key: KeyCode::Other });
    assert_eq!(action, ViewerAction::Ignore);
    assert_eq!(v.image().data(), &before);
}

#[test]
fn redraw_asks_for_a_render() {
    let mut v = fresh_viewer();
    let before = v.image().data().clone();
    assert_eq!(v.handle_event(ViewerEvent::RedrawRequested), ViewerAction::Render);
    assert_eq!(v.image().data(), &before);
}
