use screenshot_renamer::pathops::{get_file_extension, rename_destination};

#[test]
fn test_file_ext() {
    let fake_image = "fake_image.png";

    assert_eq!("png", get_file_extension(fake_image));
    assert_ne!("jpeg", get_file_extension(fake_image));
    assert_ne!("jpg", get_file_extension(fake_image));
}

#[test]
fn test_file_ext_defaults_to_png_without_extension() {
    assert_eq!("png", get_file_extension("no_extension_here"));
    assert_eq!("png", get_file_extension("/tmp/no_extension_here"));
}

#[test]
fn test_file_ext_dotfile_has_no_extension() {
    assert_eq!("png", get_file_extension("/home/u/.hidden"));
}

#[test]
fn test_file_ext_only_looks_at_file_name() {
    assert_eq!("png", get_file_extension("dir.jpeg/file"));
    assert_eq!("txt", get_file_extension("dir.jpeg/file.txt"));
}

#[test]
fn test_rename_destination_same_directory() {
    let dest = rename_destination("/dir/original.png", "beach-sunset");
    assert_eq!(dest, "/dir/beach-sunset.png");
}

#[test]
fn test_rename_destination_defaults_extension() {
    let dest = rename_destination("/dir/original", "x");
    assert_eq!(dest, "/dir/x.png");
}

#[test]
fn test_rename_destination_replaces_new_name_extension() {
    // The proposed name's own trailing ".0-shot" reads as an extension and
    // is replaced by the original file's extension.
    let dest = rename_destination("/dir/a.png", "v2.0-shot");
    assert_eq!(dest, "/dir/v2.png");
}

#[test]
fn test_rename_destination_bare_file_name() {
    let dest = rename_destination("shot.png", "named");
    assert_eq!(dest, "named.png");
}
