use screenshot_renamer::pathops::rename_destination;

#[test]
fn test_rename_file() {
    let original_path = "temp_screenshot.png";

    // New name (without extension)
    let new_name = "renamed_test_file".to_string();

    let renamed_path = rename_destination(original_path, &new_name);

    assert_eq!(renamed_path, format!("{}.png", new_name), "Renamed file should exist");
}
