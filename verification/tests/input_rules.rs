use ascent::input::{key_index, mouse_key, ButtonState, Input};

fn idle() -> ButtonState {
    ButtonState { pressed: false, down: false, released: false }
}

#[test]
fn key_index_folds_codes_onto_slots() {
    assert_eq!(key_index(3), 3);
    assert_eq!(key_index(511), 511);
    assert_eq!(key_index(512), 0);
    assert_eq!(key_index(515), 3);
    assert_eq!(key_index(0x1ff + 0x200 * 7), 0x1ff);
}

#[test]
fn new_input_is_idle() {
    let i = Input::new();
    for j in 0..512 {
        assert_eq!(i.down[j], 256);
        assert_eq!(i.up[j], 256);
        assert!(!i.key[j]);
    }
}

#[test]
fn update_counts_frames() {
    let mut i = Input::new();
    i.down[10] = 0;
    i.key[10] = true;
    assert!(i.can_update());
    i.update();
    i.update();
    assert_eq!(i.down[10], 2);
    assert_eq!(i.down[11], 258);
    assert_eq!(i.up[10], 258);
    assert!(i.key[10]);
}

#[test]
fn update_refused_at_the_top_of_the_range() {
    let mut i = Input::new();
    i.up[300] = i64::MAX;
    assert!(!i.can_update());
    i.up[300] = i64::MAX - 1;
    assert!(i.can_update());
}

#[test]
fn set_takes_over_events_and_held_keys() {
    let mut mine = Input::new();
    mine.down[5] = 40;
    mine.up[6] = 41;
    mine.key[7] = true;
    let mut other = Input::new();
    other.down[5] = 0;
    other.up[8] = 0;
    other.key[9] = true;
    mine.set(&other);
    assert_eq!(mine.down[5], 0);
    assert_eq!(mine.up[6], 41);
    assert_eq!(mine.up[8], 0);
    assert!(!mine.key[7]);
    assert!(mine.key[9]);
    // a second time changes nothing
    let before = mine.clone();
    mine.set(&other);
    assert_eq!(mine.down, before.down);
    assert_eq!(mine.up, before.up);
    assert_eq!(mine.key, before.key);
}

#[test]
fn key_events_in_one_frame() {
    let mut i = Input::new();
    i.input(&vec![65], &vec![66 + 512], &vec![67], &[idle(); 4]);
    assert!(i.key[65]);
    assert_eq!(i.down[65], 256);
    assert_eq!(i.up[66], 0);
    assert!(!i.key[66]);
    assert_eq!(i.down[67], 0);
    assert!(i.key[67]);
    // a key held and released in the same frame ends up released
    let mut j = Input::new();
    j.input(&vec![70], &vec![70], &vec![], &[idle(); 4]);
    assert!(!j.key[70]);
    // a key released and pressed in the same frame ends up held
    let mut k = Input::new();
    k.input(&vec![], &vec![71], &vec![71], &[idle(); 4]);
    assert!(k.key[71]);
    assert_eq!(k.down[71], 0);
    assert_eq!(k.up[71], 0);
}

#[test]
fn mouse_buttons_take_the_first_slots() {
    let mut i = Input::new();
    let left = ButtonState { pressed: true, down: true, released: false };
    let right = ButtonState { pressed: false, down: false, released: true };
    let middle = ButtonState { pressed: false, down: true, released: false };
    i.input(&vec![], &vec![], &vec![], &[left, middle, right, idle()]);
    assert_eq!(i.down[0], 0);
    assert!(i.key[0]);
    assert!(i.key[1]);
    assert_eq!(i.down[1], 256);
    assert_eq!(i.up[2], 0);
    assert!(!i.key[2]);
    assert!(!i.key[3]);
}

#[test]
fn mouse_release_wins_over_press() {
    let mut i = Input::new();
    mouse_key(ButtonState { pressed: true, down: true, released: true }, 3, &mut i);
    assert_eq!(i.down[3], 0);
    assert_eq!(i.up[3], 0);
    assert!(!i.key[3]);
}

#[test]
fn recent_press_is_used_up_by_consume() {
    let mut i = Input::new();
    i.press_keys(&vec![75]);
    assert!(i.just_pressed(75));
    assert!(i.recent(75));
    i.update();
    assert!(!i.just_pressed(75));
    assert!(i.recent(75));
    i.consume(75);
    assert_eq!(i.down[75], 16);
    assert!(!i.recent(75));
}

#[test]
fn press_stays_recent_for_sixteen_frames() {
    let mut i = Input::new();
    i.press_keys(&vec![74]);
    for _ in 0..15 {
        i.update();
    }
    assert_eq!(i.down[74], 15);
    assert!(i.recent(74));
    i.update();
    assert!(!i.recent(74));
    assert!(i.key[74]);
}

#[test]
fn hold_and_release_lists() {
    let mut i = Input::new();
    i.hold_keys(&vec![1, 2, 513]);
    assert!(i.key[1] && i.key[2]);
    i.release_keys(&vec![2]);
    assert!(i.key[1]);
    assert!(!i.key[2]);
    assert_eq!(i.up[2], 0);
    assert_eq!(i.up[1], 256);
}
