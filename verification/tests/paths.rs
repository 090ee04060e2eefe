use glassvis::paths::captured_path;
use glassvis::paths::get_filename;
use glassvis::paths::get_path;
use glassvis::paths::is_image_file;
use glassvis::paths::output_file;
use glassvis::paths::output_for;
use glassvis::paths::set_path;
use glassvis::paths::to_path;

#[test]
fn data_directory_is_data() {
    assert_eq!(get_path(), "data");
}

#[test]
fn to_path_keeps_the_text() {
    let text = String::from("data/output/_a.png");
    assert_eq!(to_path(&text), "data/output/_a.png");
}

#[test]
fn file_name_is_the_final_component() {
    assert_eq!(get_filename(&String::from("data/ref/a.png")), Some(String::from("a.png")));
    assert_eq!(get_filename(&String::from("a.png")), Some(String::from("a.png")));
    assert_eq!(get_filename(&String::from("/tmp/shots/")), Some(String::from("shots")));
    assert_eq!(get_filename(&String::from("/")), None);
    assert_eq!(get_filename(&String::from("")), None);
    assert_eq!(get_filename(&String::from("data/..")), None);
}

#[test]
fn output_path_goes_to_the_output_directory() {
    assert_eq!(
        set_path("_", "/home/user/pictures/glass_ref.png"),
        Some(String::from("data/output/_glass_ref.png"))
    );
    assert_eq!(
        set_path("diff", "data/output/_glass_capt.png"),
        Some(String::from("data/output/diff_glass_capt.png"))
    );
    assert_eq!(set_path("", "x.bmp"), Some(String::from("data/output/x.bmp")));
    assert_eq!(set_path("_", "/"), None);
    assert_eq!(set_path("_", ""), None);
}

#[test]
fn output_file_joins_prefix_and_name() {
    assert_eq!(output_file("_", "a.png"), "data/output/_a.png");
    assert_eq!(output_file("sub/", "a.png"), "data/output/sub/a.png");
    assert_eq!(output_file("/abs_", "a.png"), "/abs_a.png");
    assert_eq!(output_file("", ""), "data/output/");
}

#[test]
fn image_files_are_known_by_their_ending() {
    for name in [
        "a.bmp", "a.gif", "a.jpg", "a.jpeg", "a.png", "a.pnm", "a.tga", "a.tiff", "a.webp",
        "/home/user/shot.01.png",
    ] {
        assert!(is_image_file(name));
    }
    for name in ["a.txt", "png", "a.PNG", "", "a.jp", "a.tif", "bmp."] {
        assert!(!is_image_file(name));
    }
}

#[test]
fn image_ending_counts_anywhere_in_the_name() {
    assert!(is_image_file("a.png.txt"));
    assert!(is_image_file(".gif"));
    assert!(is_image_file("dir.jpg/readme"));
}

#[test]
fn captured_path_is_kept_until_a_diff_is_shown() {
    assert_eq!(
        captured_path("data/output/_glass_ref.png", "data/output/_glass_capt.png"),
        "data/output/_glass_capt.png"
    );
    assert_eq!(
        captured_path("data/output/_glass_ref.png", "data/output/diff_glass_capt.png"),
        "data/output/_glass_capt.png"
    );
}

#[test]
fn captured_path_replaces_every_ref() {
    assert_eq!(captured_path("a_ref/b_ref_ref.png", "diff"), "a_capt/b_capt_capt.png");
    assert_eq!(captured_path("no mark", "x/diff.png"), "no mark");
    assert_eq!(captured_path("_re_ref", "diff"), "_re_capt");
    assert_eq!(captured_path("", "diff"), "");
}

#[test]
fn output_for_follows_the_name_that_was_found() {
    assert_eq!(output_for("_", None), None);
    assert_eq!(
        output_for("_", Some(String::from("a.png"))),
        Some(String::from("data/output/_a.png"))
    );
    assert_eq!(
        output_for("/tmp/", Some(String::from("a.png"))),
        Some(String::from("/tmp/a.png"))
    );
}
