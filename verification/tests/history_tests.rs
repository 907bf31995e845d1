use light_field_test::history::{CameraHistory, SaveManager};
use std::collections::VecDeque;

#[test]
fn save_point_skips_equal_cameras() {
    let mut h: CameraHistory<(u32, u32)> = CameraHistory::new();
    assert_eq!(h.len(), 0);
    h.save_point(&(1, 2));
    h.save_point(&(3, 4));
    h.save_point(&(1, 2));
    assert_eq!(h.len(), 2);
    assert_eq!(h.history, VecDeque::from(vec![(1, 2), (3, 4)]));
}

#[test]
fn empty_history_has_no_next_or_previous() {
    let mut h: CameraHistory<u8> = CameraHistory::new();
    assert_eq!(h.next_save(), None);
    assert_eq!(h.previous_save(), None);
}

#[test]
fn next_save_cycles_front_to_back() {
    let mut h: CameraHistory<u8> = CameraHistory::new();
    for c in [10u8, 20, 30] {
        h.save_point(&c);
    }
    assert_eq!(h.next_save(), Some(&10));
    assert_eq!(h.next_save(), Some(&20));
    assert_eq!(h.next_save(), Some(&30));
    // a full cycle restores the history
    assert_eq!(h.history, VecDeque::from(vec![10, 20, 30]));
}

#[test]
fn previous_save_undoes_next_save() {
    let mut h: CameraHistory<u8> = CameraHistory::new();
    for c in [1u8, 2, 3] {
        h.save_point(&c);
    }
    h.next_save();
    assert_eq!(h.history, VecDeque::from(vec![2, 3, 1]));
    assert_eq!(h.previous_save(), Some(&3));
    assert_eq!(h.history, VecDeque::from(vec![1, 2, 3]));
}

#[test]
fn save_manager_boots_closed() {
    let m: SaveManager<u8> = SaveManager::boot(VecDeque::from(vec![7, 8]));
    assert_eq!(m.saves, VecDeque::from(vec![7, 8]));
    assert!(m.current_save_name.is_empty());
    assert!(!m.save_open);
    assert!(!m.first_draw);
    assert!(!m.name_inserted);
}

#[test]
fn save_manager_cycles_saves() {
    let mut m: SaveManager<u8> = SaveManager::boot(VecDeque::new());
    assert_eq!(m.next_save(), None);
    assert_eq!(m.previous_save(), None);
    m.add_save(1);
    m.add_save(2);
    assert_eq!(m.next_save(), Some(&1));
    assert_eq!(m.saves, VecDeque::from(vec![2, 1]));
    assert_eq!(m.previous_save(), Some(&2));
    assert_eq!(m.saves, VecDeque::from(vec![1, 2]));
}

#[test]
fn save_prompt_flow() {
    let mut m: SaveManager<u8> = SaveManager::boot(VecDeque::new());
    assert!(!m.draw_ui_begin());
    assert!(m.first_draw);
    assert!(!m.name_inserted);
    m.save_open = true;
    m.current_save_name = String::from("scene");
    assert!(m.draw_ui_begin());
    m.draw_ui_end(false, false);
    assert!(!m.first_draw);
    assert!(m.save_open);
    m.draw_ui_end(true, false);
    assert!(m.name_inserted);
    assert_eq!(m.current_save_name, "scene");
    m.add_save(5);
    assert!(!m.save_open);
    assert_eq!(m.saves, VecDeque::from(vec![5]));
}

#[test]
fn save_prompt_cancel_forgets_name() {
    let mut m: SaveManager<u8> = SaveManager::boot(VecDeque::new());
    m.save_open = true;
    m.name_inserted = true;
    m.current_save_name = String::from("x");
    m.draw_ui_end(false, true);
    assert!(!m.save_open);
    assert!(!m.name_inserted);
    assert!(m.current_save_name.is_empty());
}

#[test]
fn size_to_bytes_encodes_length() {
    let mut h: CameraHistory<u8> = CameraHistory::new();
    assert_eq!(h.size_to_bytes(), 0u32.to_ne_bytes().to_vec());
    for c in 0u8..5 {
        h.save_point(&c);
    }
    let bytes = h.size_to_bytes();
    assert_eq!(bytes.len(), 4);
    assert_eq!(u32::from_ne_bytes([bytes[0], bytes[1], bytes[2], bytes[3]]), 5);
}

#[test]
fn save_point_appends_the_camera_itself() {
    let mut h: CameraHistory<u32> = CameraHistory::new();
    h.save_point(&7);
    h.save_point(&9);
    h.save_point(&7);
    h.save_point(&9);
    assert_eq!(h.history, VecDeque::from(vec![7, 9]));
    assert!(h.history.contains(&7) && h.history.contains(&9));
}
