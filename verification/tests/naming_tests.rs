use light_field_test::naming::scene_capture_dir;
use light_field_test::naming::{
    ensure_png_extension, separable_save_path, stereo_save_path, str_ends_with, with_ro_extension,
    ScreenshotPrompt,
};

#[test]
fn ends_with_matches_suffix() {
    assert!(str_ends_with("scene.ro", ".ro"));
    assert!(!str_ends_with("scene.ron", ".ro"));
    assert!(str_ends_with("abc", ""));
    assert!(!str_ends_with("ro", ".ro"));
    assert!(str_ends_with("é.ro", ".ro"));
}

#[test]
fn ro_extension_added_once() {
    assert_eq!(with_ro_extension("scene"), "scene.ro");
    assert_eq!(with_ro_extension("scene.ro"), "scene.ro");
    assert_eq!(with_ro_extension(&with_ro_extension("a")), "a.ro");
}

#[test]
fn save_paths_per_approach() {
    assert_eq!(separable_save_path("room"), "./saves/matrix_capture/sep/room.ro");
    assert_eq!(separable_save_path("room.ro"), "./saves/matrix_capture/sep/room.ro");
    assert_eq!(stereo_save_path("room"), "./saves/matrix_capture/stereo/room.ro");
}

#[test]
fn png_extension_added_once() {
    let mut name = String::from("shot");
    ensure_png_extension(&mut name);
    assert_eq!(name, "shot.png");
    ensure_png_extension(&mut name);
    assert_eq!(name, "shot.png");
    let mut empty = String::new();
    ensure_png_extension(&mut empty);
    assert_eq!(empty, ".png");
}

#[test]
fn screenshot_prompt_save_flow() {
    let mut p = ScreenshotPrompt::new();
    assert!(!p.draw_ui_begin());
    assert!(p.first_draw && !p.name_inserted);
    p.retrieve_image = true;
    assert!(p.draw_ui_begin());
    p.save_name = String::from("view");
    p.draw_ui_end(false, false);
    assert!(!p.first_draw && !p.name_inserted);
    assert_eq!(p.save_name, "view");
    p.draw_ui_end(true, false);
    assert!(p.name_inserted && p.retrieve_image);
    assert_eq!(p.save_name, "view.png");
}

#[test]
fn screenshot_prompt_cancel() {
    let mut p = ScreenshotPrompt::new();
    p.retrieve_image = true;
    p.save_name = String::from("view");
    p.draw_ui_end(false, true);
    assert!(!p.retrieve_image && !p.name_inserted && !p.first_draw);
    assert!(p.save_name.is_empty());
}

#[test]
fn scene_capture_directory() {
    assert_eq!(scene_capture_dir("room"), "./saves/scene_capture/room/");
    assert_eq!(scene_capture_dir(""), "./saves/scene_capture//");
}
