use ascent::frame::{count_round_time, sync_plan, FrameClock, MAX_STEPS, STEP_NS};
use ascent::ids::{new_id, IdCounter};
use ascent::levels::{LevelLoader, LoadPlan};
use ascent::scene::{Scene, UI, FIRST_LEVEL};

#[test]
fn ids_count_up_and_wrap() {
    let mut c = IdCounter::new();
    assert_eq!(new_id(&mut c), 0);
    assert_eq!(new_id(&mut c), 1);
    assert_eq!(new_id(&mut c), 2);
    assert_eq!(c.next, 3);
    let mut top = IdCounter { next: u64::MAX };
    assert_eq!(new_id(&mut top), u64::MAX);
    assert_eq!(top.next, 0);
}

#[test]
fn end_screen_restarts_on_r() {
    let mut scene = Scene::End { winner: "Winner: ann".to_string() };
    let mut t = 1234;
    UI::ui(&mut scene, &mut t, false, true);
    assert!(matches!(scene, Scene::End { .. }));
    assert_eq!(t, 1234);
    UI::ui(&mut scene, &mut t, true, false);
    assert!(matches!(scene, Scene::Restart { level: 1 }));
    assert_eq!(t, 0);
}

#[test]
fn title_screen_starts_on_enter() {
    let mut scene = Scene::Start;
    let mut t = 7;
    UI::ui(&mut scene, &mut t, true, false);
    assert!(matches!(scene, Scene::Start));
    assert_eq!(t, 7);
    UI::ui(&mut scene, &mut t, false, true);
    assert!(matches!(scene, Scene::Restart { level: FIRST_LEVEL }));
    assert_eq!(t, 0);
}

#[test]
fn gameplay_ignores_screen_keys() {
    let mut scene = Scene::Gameplay;
    let mut t = 99;
    UI::ui(&mut scene, &mut t, true, true);
    assert!(matches!(scene, Scene::Gameplay));
    assert_eq!(t, 99);
}

#[test]
fn restart_request_becomes_gameplay() {
    let mut scene = Scene::Restart { level: 3 };
    assert_eq!(scene.begin_restart(), Some(3));
    assert!(matches!(scene, Scene::Gameplay));
    assert_eq!(scene.begin_restart(), None);
    assert!(matches!(scene, Scene::Gameplay));
}

#[test]
fn winner_banner_names_the_player() {
    let s = Scene::won_by(&"zoe".to_string());
    assert!(s.is_end());
    match s {
        Scene::End { winner } => assert_eq!(winner, "Winner: zoe"),
        _ => panic!("not the end scene"),
    }
    assert!(!Scene::Start.is_end());
}

#[test]
fn level_loading_plans() {
    assert_eq!(LevelLoader::load(0, false, false), LoadPlan::Clear);
    assert_eq!(LevelLoader::load(0, true, true), LoadPlan::Clear);
    assert_eq!(LevelLoader::load(1, false, false), LoadPlan::Build { level: 1 });
    assert_eq!(LevelLoader::load(2, false, true), LoadPlan::Nothing);
    assert_eq!(LevelLoader::load(1, true, true), LoadPlan::Login);
    assert_eq!(LevelLoader::load(1, true, false), LoadPlan::Nothing);
}

#[test]
fn clock_steps_at_a_fixed_rate() {
    assert_eq!(STEP_NS, 1_000_000_000 / 240);
    let mut c = FrameClock::new();
    c.begin_frame(3 * STEP_NS + 10);
    assert!(c.next_step());
    assert!(c.next_step());
    assert!(c.next_step());
    assert_eq!(c.dt, 10);
    assert!(!c.next_step());
    c.begin_frame(4 * STEP_NS);
    assert_eq!(c.dt, STEP_NS);
    // exactly one step waiting is not yet due
    assert!(!c.next_step());
}

#[test]
fn frame_step_budget() {
    let mut c = FrameClock::new();
    c.begin_frame(100 * STEP_NS);
    let mut taken = 0;
    while c.next_step() {
        taken += 1;
        if c.end_step() {
            break;
        }
    }
    assert_eq!(taken, MAX_STEPS + 1);
    assert_eq!(c.dt, (100 - 9) * STEP_NS);
}

#[test]
fn round_timer_runs_only_during_play() {
    let mut t = 5;
    count_round_time(&mut t, false, false);
    assert_eq!(t, 6);
    count_round_time(&mut t, true, false);
    count_round_time(&mut t, false, true);
    assert_eq!(t, 6);
}

#[test]
fn client_sync_schedule() {
    let p = sync_plan(0);
    assert!(p.request_world && p.send_player);
    let p = sync_plan(12);
    assert!(!p.request_world && p.send_player);
    let p = sync_plan(32);
    assert!(p.request_world && !p.send_player);
    let p = sync_plan(96);
    assert!(p.request_world && p.send_player);
    let p = sync_plan(7);
    assert!(!p.request_world && !p.send_player);
}
