use screenshot_renamer::classify::is_new_screenshot;

#[test]
fn test_is_new_screenshot() {
    let valid_existing = "tests/assets/Screenshot_2025-06-12.png";
    let nonexistent = "/some/clearly/fake/Screenshot_does_not_exist.png";
    let wrong_ext = "tests/assets/screenshot.txt";
    let wrong_name = "tests/assets/image_01.png";

    assert!(is_new_screenshot(valid_existing, true, false), "Should detect real screenshot");
    assert!(!is_new_screenshot(nonexistent, false, false), "Should skip nonexistent file");
    assert!(!is_new_screenshot(wrong_ext, true, false), "Wrong extension should return false");
    assert!(!is_new_screenshot(wrong_name, true, false), "Wrong name should return false");
}

#[test]
fn test_is_new_screenshot_rejects_directories() {
    assert!(!is_new_screenshot("/home/u/Screenshot_dir.png", true, true));
}

#[test]
fn test_is_new_screenshot_name_case_insensitive() {
    assert!(is_new_screenshot("/d/SCREENSHOT_1.png", true, false));
    assert!(is_new_screenshot("/d/ScreenShot at noon.png", true, false));
}

#[test]
fn test_is_new_screenshot_extension_case_sensitive() {
    assert!(!is_new_screenshot("/d/Screenshot_1.PNG", true, false));
}

#[test]
fn test_is_new_screenshot_needs_png_extension_even_for_screenshot_names() {
    // A name holding "screenshot" but no extension at all is refused.
    assert!(!is_new_screenshot("/d/screenshot", true, false));
}
