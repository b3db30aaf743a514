use img_viewer::error::ViewerError;

#[test]
fn each_failure_has_its_message() {
    assert_eq!(ViewerError::Window.message(), "Unable to create the main window");
    assert_eq!(ViewerError::Io.message(), "Unable to load the image");
    assert_eq!(ViewerError::Image.message(), "Unable to decode image");
    assert_eq!(
        ViewerError::NoPrimaryMonitor.message(),
        "Unable to calculate maximum screen size on your primary monitor"
    );
    assert_eq!(ViewerError::Pixels.message(), "Unable to view image pixels");
}
