use light_field_test::cache::ImageCache;

#[test]
fn new_cache_has_no_outputs() {
    let c: ImageCache<u8, u8> = ImageCache::new(9, vec![1, 2]);
    assert_eq!(c.target_image, 9);
    assert_eq!(c.panels, vec![1, 2]);
    assert!(c.stereo_out.is_none() && c.separable_out.is_none());
}

#[test]
fn load_output_fails_without_output() {
    let mut c: ImageCache<u8, u8> = ImageCache::new(9, vec![1, 2, 3]);
    assert_eq!(c.load_output(true), Err(()));
    assert_eq!(c.load_output(false), Err(()));
    assert_eq!(c.panels, vec![1, 2, 3]);
}

#[test]
fn cached_output_is_shown_and_reloaded() {
    let mut c: ImageCache<u8, u8> = ImageCache::new(9, vec![1]);
    c.cache_output(true, Some((5, 6, None)));
    assert_eq!(c.panels, vec![5, 6]);
    c.cache_output(false, Some((7, 8, Some(1))));
    assert_eq!(c.panels, vec![7, 8]);
    assert_eq!(c.load_output(true), Ok(()));
    assert_eq!(c.panels, vec![5, 6]);
    c.cache_output(true, None);
    assert_eq!(c.panels, vec![5, 6]);
    assert!(c.stereo_out.is_none());
    assert_eq!(c.separable_out, Some((7, 8, Some(1))));
}

#[test]
fn panel_and_world_replacement() {
    let mut c: ImageCache<u8, u8> = ImageCache::new(9, vec![1, 2]);
    c.cache_panel(1, 4);
    assert_eq!(c.panels, vec![1, 4]);
    c.load_world(3);
    assert_eq!(c.target_image, 3);
    assert_eq!(c.panels, vec![1, 4]);
}

#[test]
fn recorded_error_per_output() {
    let mut c: ImageCache<u8, Vec<u32>> = ImageCache::new(0, vec![1, 2]);
    assert_eq!(c.recorded_error(true), None);
    c.cache_output(true, Some((1, 2, None)));
    assert_eq!(c.recorded_error(true), None);
    c.cache_output(false, Some((1, 2, Some(vec![3, 2, 1]))));
    assert_eq!(c.recorded_error(false), Some(&vec![3, 2, 1]));
    assert_eq!(c.recorded_error(true), None);
}
