use std::collections::HashMap;

use ascent::hold::{collect_held, find_holder, grab_exclusions};
use ascent::lines::{polygon_edges, Footing, LineType};
use ascent::entity::{plays, Entities, EntityKind, Role};
use ascent::motion::{control, finish_step, grip, jump_kind, throw_kind, walk_direction, ControlKeys, Controls, Grip, JumpKind, Stance, ThrowKind};
use ascent::input::Input;
use ascent::session::{remote_players, Clients, LoginReply};
use ascent::ids::{new_id, IdCounter};
use ascent::scene::Scene;
use ascent::table::{adopt_world, remove_flagged};
use ascent::timers::{expire, reload, settle, SHOT_LIFETIME};

#[test]
fn touching_edges() {
    let mut f = Footing::new(40);
    f.touch(&vec![LineType::Inv, LineType::Inv]);
    assert_eq!(f.linetype, LineType::Inv);
    assert_eq!(f.ground, 40);
    assert!(!f.reached_end);
    f.touch(&vec![LineType::Ice, LineType::Normal, LineType::Inv]);
    assert_eq!(f.linetype, LineType::Normal);
    assert_eq!(f.ground, 0);
    f.touch(&vec![LineType::End]);
    assert_eq!(f.linetype, LineType::Normal);
    assert!(f.reached_end);
    let mut g = Footing::new(3);
    g.touch(&vec![LineType::End]);
    assert_eq!(g.ground, 0);
    assert_eq!(g.linetype, LineType::Inv);
    assert!(g.reached_end);
}

#[test]
fn touching_in_batches_equals_touching_all() {
    let a = vec![LineType::Normal, LineType::Inv];
    let b = vec![LineType::Ice, LineType::End];
    let mut f = Footing::new(20);
    f.touch(&a);
    f.touch(&b);
    let mut all = a.clone();
    all.extend(b.iter().copied());
    let mut g = Footing::new(20);
    g.touch(&all);
    assert_eq!(f.linetype, g.linetype);
    assert_eq!(f.ground, g.ground);
    assert_eq!(f.reached_end, g.reached_end);
    assert_eq!(g.linetype, LineType::Ice);
}

#[test]
fn polygon_closes_its_outline() {
    let pts = vec![(0, 0), (4, 0), (4, 3)];
    let e = polygon_edges(&pts);
    assert_eq!(e, vec![((0, 0), (4, 0)), ((4, 0), (4, 3)), ((4, 3), (0, 0))]);
    let single = polygon_edges(&vec![7u8]);
    assert_eq!(single, vec![(7, 7)]);
    let f = polygon_edges(&vec![(-72.5f64, -180.0f64), (-38.0, -173.0)]);
    assert_eq!(f.len(), 2);
    assert_eq!(f[1].1, (-72.5, -180.0));
}

#[test]
fn holders_and_exclusions() {
    // 1 holds 2, 3 holds 1, 4 holds 3, 5 holds 9
    let holds = vec![(2, None), (1, Some(2)), (3, Some(1)), (4, Some(3)), (5, Some(9)), (6, None)];
    assert_eq!(find_holder(&holds, 2), Some(1));
    assert_eq!(find_holder(&holds, 6), None);
    assert_eq!(collect_held(&holds), vec![2, 1, 3, 9]);
    assert_eq!(grab_exclusions(2, &holds), vec![2, 1, 3, 4, 2, 1, 3, 9]);
    assert_eq!(grab_exclusions(6, &holds), vec![6, 2, 1, 3, 9]);
    // the last holder in visiting order is the one found
    let twice = vec![(7, Some(8)), (9, Some(8))];
    assert_eq!(find_holder(&twice, 8), Some(9));
    assert_eq!(grab_exclusions(8, &twice), vec![8, 9, 8, 8]);
}

#[test]
fn walking_and_grip() {
    assert_eq!(walk_direction(false, true), 1);
    assert_eq!(walk_direction(true, false), -1);
    assert_eq!(walk_direction(true, true), 0);
    assert_eq!(walk_direction(false, false), 0);
    assert_eq!(grip(LineType::Normal, 15), Grip::Surface);
    assert_eq!(grip(LineType::Normal, 16), Grip::Air);
    assert_eq!(grip(LineType::Ice, 0), Grip::Ice);
    assert_eq!(grip(LineType::Ice, 100), Grip::Ice);
    assert_eq!(grip(LineType::Inv, 0), Grip::Air);
    assert_eq!(grip(LineType::End, 0), Grip::Air);
}

#[test]
fn jump_and_throw_directions() {
    assert_eq!(jump_kind(false, true, false), JumpKind::Straight);
    assert_eq!(jump_kind(true, false, false), JumpKind::Damped);
    assert_eq!(jump_kind(true, true, false), JumpKind::TurnLeft);
    assert_eq!(jump_kind(true, false, true), JumpKind::TurnRight);
    assert_eq!(jump_kind(true, true, true), JumpKind::Damped);
    assert_eq!(throw_kind(true, true), ThrowKind::Down);
    assert_eq!(throw_kind(false, true), ThrowKind::Up);
    assert_eq!(throw_kind(false, false), ThrowKind::Forward);
}

#[test]
fn jumping_needs_a_fresh_press_and_footing() {
    let mut input = Input::new();
    let mut s = Stance::new();
    assert!(!s.try_jump(&mut input, 75));
    assert_eq!(s.escape, -1);
    input.press_keys(&vec![75]);
    assert!(s.try_jump(&mut input, 75));
    assert_eq!(s.ground, 16);
    assert_eq!(s.escape, 16);
    assert_eq!(input.down[75], 16);
    assert!(s.escaping());
    input.press_keys(&vec![75]);
    assert!(!s.try_jump(&mut input, 75));
    assert_eq!(input.down[75], 0);
    assert!(s.tick());
    assert_eq!(s.ground, 17);
    s.carried();
    assert_eq!(s.ground, 0);
    assert!(!s.tick());
}

#[test]
fn cannon_fires_every_freq_plus_one_frames() {
    let mut p = 2;
    assert!(!reload(&mut p, 4));
    assert!(!reload(&mut p, 4));
    assert_eq!(p, 0);
    assert!(reload(&mut p, 4));
    assert_eq!(p, 4);
    let mut fired = 0;
    for _ in 0..10 {
        if reload(&mut p, 4) {
            fired += 1;
        }
    }
    assert_eq!(fired, 2);
}

#[test]
fn shots_expire() {
    let mut t = SHOT_LIFETIME;
    assert_eq!(t, 4096);
    let mut frames = 0;
    while !expire(&mut t) {
        frames += 1;
    }
    assert_eq!(frames, 4096);
    assert_eq!(t, -1);
    let mut hit = 0;
    assert!(expire(&mut hit));
}

#[test]
fn stones_settle() {
    let mut g = 0;
    assert!(settle(&mut g));
    assert_eq!(g, 17);
    assert!(!settle(&mut g));
    assert_eq!(g, 18);
    let mut h = 15;
    assert!(settle(&mut h));
    assert_eq!(h, 17);
}

#[test]
fn clients_log_in_once() {
    let mut clients: Clients<u32> = Clients::new();
    let mut ids = IdCounter { next: 10 };
    let ann = "ann".to_string();
    let bob = "bob".to_string();
    assert_eq!(clients.login(&ann, 1, false, &mut ids), LoginReply::Denied);
    assert_eq!(clients.len(), 0);
    assert_eq!(clients.login(&ann, 1, true, &mut ids), LoginReply::Welcome { assigned: Some(10) });
    assert_eq!(clients.login(&bob, 2, true, &mut ids), LoginReply::Welcome { assigned: Some(11) });
    assert_eq!(clients.login(&ann, 3, true, &mut ids), LoginReply::Welcome { assigned: None });
    assert_eq!(ids.next, 12);
    assert_eq!(clients.lookup(&ann), Some(10));
    assert_eq!(clients.lookup(&bob), Some(11));
    assert_eq!(clients.lookup(&"cid".to_string()), None);
    assert_eq!(clients.addresses(), vec![1, 2]);
    clients.clear();
    assert_eq!(clients.len(), 0);
    assert_eq!(clients.lookup(&ann), None);
}

#[test]
fn flagged_entries_are_removed() {
    let mut m: HashMap<u64, &str> = HashMap::new();
    m.insert(1, "a");
    m.insert(2, "b");
    m.insert(3, "c");
    remove_flagged(&mut m, &vec![2, 9, 2]);
    assert_eq!(m.len(), 2);
    assert!(m.contains_key(&1) && m.contains_key(&3));
    assert!(!m.contains_key(&2));
}

#[test]
fn world_update_keeps_own_player() {
    let mut local: HashMap<u64, &str> = HashMap::new();
    local.insert(1, "me-local");
    local.insert(2, "old-other");
    let mut incoming: HashMap<u64, &str> = HashMap::new();
    incoming.insert(1, "me-remote");
    incoming.insert(3, "new-other");
    adopt_world(&mut local, incoming, 1);
    assert_eq!(local.len(), 2);
    assert_eq!(local[&1], "me-local");
    assert_eq!(local[&3], "new-other");
    assert!(!local.contains_key(&2));
    let mut empty: HashMap<u64, &str> = HashMap::new();
    let mut incoming2: HashMap<u64, &str> = HashMap::new();
    incoming2.insert(5, "x");
    adopt_world(&mut empty, incoming2, 1);
    assert_eq!(empty.len(), 1);
    assert!(!empty.contains_key(&1));
}

#[test]
fn entity_roles() {
    assert!(plays(EntityKind::Stone, Role::Obj) && plays(EntityKind::Stone, Role::Projectile));
    assert!(plays(EntityKind::Player, Role::Obj) && plays(EntityKind::Player, Role::Projectile));
    assert!(plays(EntityKind::Cannon, Role::Obj) && !plays(EntityKind::Cannon, Role::Projectile));
    assert!(plays(EntityKind::Platform, Role::Obj) && !plays(EntityKind::Platform, Role::Projectile));
    assert!(!plays(EntityKind::Damage, Role::Obj) && plays(EntityKind::Damage, Role::Projectile));
    let mut e = Entities::new();
    e.append(&vec![1, 2], EntityKind::Stone);
    e.append(&vec![3], EntityKind::Damage);
    e.append(&vec![4], EntityKind::Platform);
    assert_eq!(e.len(), 4);
    assert_eq!(
        e.as_mut(Role::Obj),
        vec![(1, EntityKind::Stone), (2, EntityKind::Stone), (4, EntityKind::Platform)]
    );
    assert_eq!(
        e.as_mut(Role::Projectile),
        vec![(1, EntityKind::Stone), (2, EntityKind::Stone), (3, EntityKind::Damage)]
    );
    e.clear();
    assert!(e.as_mut(Role::Obj).is_empty());
}

#[test]
fn entity_added_twice_takes_the_last_kind() {
    let mut e = Entities::new();
    e.append(&vec![5], EntityKind::Player);
    e.append(&vec![7, 5], EntityKind::Platform);
    assert_eq!(e.len(), 2);
    assert_eq!(e.as_mut(Role::Obj), vec![(5, EntityKind::Platform), (7, EntityKind::Platform)]);
    assert!(e.as_mut(Role::Projectile).is_empty());
    let mut f = Entities::new();
    f.append(&vec![9, 9, 9], EntityKind::Stone);
    assert_eq!(f.len(), 1);
}

#[test]
fn controls_of_a_step() {
    let keys = ControlKeys { left: 10, right: 11, up: 12, down: 13, jump: 14, grab: 15 };
    let mut input = Input::new();
    let mut s = Stance::new();
    input.hold_keys(&vec![11, 13]);
    input.press_keys(&vec![14, 15]);
    let c = control(&mut s, &mut input, &keys, None);
    assert_eq!(c, Controls { walk: 1, jump: Some(JumpKind::TurnRight), throw: None, grab: true });
    assert_eq!(input.down[14], 16);
    assert_eq!(input.down[15], 0);
    // holding an object: the grab key throws it and is used up, no grab
    let mut input2 = Input::new();
    let mut s2 = Stance { ground: 40, escape: 3 };
    input2.press_keys(&vec![15]);
    input2.hold_keys(&vec![12]);
    let c2 = control(&mut s2, &mut input2, &keys, Some(false));
    assert_eq!(c2, Controls { walk: 0, jump: None, throw: Some(ThrowKind::Up), grab: false });
    assert_eq!(input2.down[15], 16);
    assert_eq!(s2.escape, 2);
    // a held player breaking free forces a throw even without the key
    let mut input3 = Input::new();
    let mut s3 = Stance::new();
    let c3 = control(&mut s3, &mut input3, &keys, Some(true));
    assert_eq!(c3.throw, Some(ThrowKind::Forward));
    assert!(!c3.grab);
}

#[test]
fn end_of_step_decisions() {
    let mut stance = Stance { ground: 30, escape: 5 };
    let mut footing = Footing::new(30);
    footing.touch(&vec![LineType::Ice, LineType::End]);
    let mut input = Input::new();
    input.press_keys(&vec![93]);
    let mut scene = Scene::Gameplay;
    let mut start = true;
    let surface = finish_step(&mut stance, &footing, &input, 93, &"ann".to_string(), &mut scene, &mut start);
    assert_eq!(surface, LineType::Ice);
    assert_eq!(stance.ground, 0);
    assert_eq!(stance.escape, 5);
    assert!(!start);
    match scene {
        Scene::End { winner } => assert_eq!(winner, "Winner: ann"),
        _ => panic!("the goal line ends the round"),
    }
    // no goal, no fresh press: nothing changes but the footing
    let mut stance2 = Stance { ground: 30, escape: 5 };
    let footing2 = Footing::new(31);
    input.update();
    let mut scene2 = Scene::Gameplay;
    let mut start2 = true;
    let surface2 = finish_step(&mut stance2, &footing2, &input, 93, &"bo".to_string(), &mut scene2, &mut start2);
    assert_eq!(surface2, LineType::Inv);
    assert_eq!(stance2.ground, 31);
    assert!(start2);
    assert!(matches!(scene2, Scene::Gameplay));
}

#[test]
fn client_message_decisions() {
    let mut scene = Scene::Gameplay;
    scene.deny();
    assert!(matches!(scene, Scene::Start));
    assert_eq!(remote_players(&vec![4, 2, 9, 2], 2), vec![4, 9]);
    assert_eq!(remote_players(&vec![], 2), Vec::<u64>::new());
}

#[test]
fn new_cannon_shot_count() {
    // a new cannon fires on its first frame, then every freq + 1 frames
    for freq in [0, 1, 4, 255] {
        let mut p = 0;
        let mut shots = 0;
        for n in 1..=700u32 {
            if reload(&mut p, freq) {
                shots += 1;
            }
            assert_eq!(shots, (n - 1) / (freq as u32 + 1) + 1);
        }
    }
}

#[test]
fn shot_is_spent_on_frame_4097() {
    let mut t = SHOT_LIFETIME;
    for _ in 1..=4096 {
        assert!(!expire(&mut t));
    }
    assert!(expire(&mut t));
}

#[test]
fn consecutive_ids() {
    let mut c = IdCounter { next: 40 };
    let got: Vec<u64> = (0..5).map(|_| new_id(&mut c)).collect();
    assert_eq!(got, vec![40, 41, 42, 43, 44]);
    assert_eq!(c.next, 45);
}
