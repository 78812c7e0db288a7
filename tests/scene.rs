use bifrost_ecs::asset_loader_errors::AssetLoaderError;
use bifrost_ecs::cell::Access;
use bifrost_ecs::errors::{ComponentAlreadyBorrowed, ComponentError, ComponentNotFounded};
use bifrost_ecs::countdown::{Timer, TimerScheduler};
use bifrost_ecs::errors::ArchetypeError;
use bifrost_ecs::input::{Input, InputHandler};
use bifrost_ecs::lifecycle::{step, LifetimeSystemExec, RunAction, Stage};
use bifrost_ecs::query::Request;
use bifrost_ecs::scene::{ComponentValue, Scene, CLOCK_KEY, ENTITY_KEY};

type World = Scene<u32, u32, u8, u8, u8>;

const POS: u64 = 1;
const VEL: u64 = 2;
const HIT: u64 = 5;

#[test]
fn new_scene_holds_the_clock() {
    let s: World = Scene::new(100);
    assert_eq!(s.archetype().len(), 1);
    assert_eq!(s.query(&vec![Request::shared(CLOCK_KEY)]).result, vec![0]);
    let c = s.clock().unwrap();
    assert_eq!((c.delta_time, c.last_time, c.time), (0, 100, 0));
    assert!(!s.is_running());
}

#[test]
fn spawn_assigns_ids_and_identity() {
    let mut s: World = Scene::new(0);
    let a = s.spawn(vec![(POS, 1), (VEL, 2)]).unwrap();
    let b = s.spawn(vec![(POS, 3)]).unwrap();
    assert_eq!((a, b), (1, 2));
    let e = s.get_entity(b).unwrap();
    match e.get_component(ENTITY_KEY) {
        Ok(ComponentValue::Entity(id)) => assert_eq!(id.0, b),
        _ => panic!("missing identity"),
    }
    let both = vec![Request::shared(POS), Request::shared(VEL)];
    assert_eq!(s.query(&both).result, vec![1]);
    assert_eq!(s.query(&vec![Request::shared(ENTITY_KEY)]).result, vec![0, 1, 2]);
    assert_eq!(s.query_single(&vec![Request::shared(POS)]), Some(1));
    s.remove_entity(a);
    assert_eq!(s.spawn(vec![]), Some(3));
    assert_eq!(s.query_single(&vec![Request::exclusive(POS)]), Some(2));
}

#[test]
fn scene_component_edits() {
    let mut s: World = Scene::new(0);
    let a = s.spawn(vec![(POS, 1)]).unwrap();
    assert_eq!(s.add_component_to_entity(a, VEL, 4), Ok(()));
    assert!(matches!(
        s.add_component_to_entity(a, VEL, 5),
        Err(ArchetypeError::EntityAlreadyHaveComponentError(_))
    ));
    assert!(matches!(
        s.add_component_to_entity(40, VEL, 5),
        Err(ArchetypeError::EntityNotFoundedError(_))
    ));
    assert!(s.set_component(a, VEL, 6).is_ok());
    match s.get_entity(a).unwrap().get_component(VEL) {
        Ok(ComponentValue::Custom(v)) => assert_eq!(*v, 6),
        _ => panic!("missing velocity"),
    }
    assert_eq!(s.remove_component_from_entity(a, POS), Ok(()));
    assert!(matches!(
        s.remove_component_from_entity(40, POS),
        Err(ArchetypeError::EntityNotFoundedError(_))
    ));
    assert!(s.query(&vec![Request::shared(POS)]).result.is_empty());
}

#[test]
fn spawn_batch_and_bundle_on_existing_entity() {
    let mut s: World = Scene::new(0);
    let ids = s.spawn_batch(vec![vec![(POS, 1)], vec![(VEL, 2)], vec![]]);
    assert_eq!(ids, vec![1, 2, 3]);
    assert_eq!(s.query(&vec![Request::shared(POS)]).result, vec![1]);
    s.add_components_to_entity(3, vec![(POS, 5), (VEL, 6)]);
    assert_eq!(s.query(&vec![Request::shared(POS), Request::shared(VEL)]).result, vec![3]);
    s.add_components_to_entity(99, vec![(POS, 5)]);
    assert_eq!(s.archetype().len(), 4);
}

#[test]
fn held_acquisitions_arbitrate_queries() {
    let mut s: World = Scene::new(0);
    let a = s.spawn(vec![(POS, 1)]).unwrap();
    assert_eq!(s.acquire_component(a, POS, Access::Shared), Ok(()));
    assert_eq!(s.acquire_component(a, POS, Access::Shared), Ok(()));
    assert_eq!(
        s.acquire_component(a, POS, Access::Exclusive),
        Err(ComponentError::ComponentAlreadyBorrowedError(ComponentAlreadyBorrowed(POS)))
    );
    assert_eq!(s.query(&vec![Request::shared(POS)]).result, vec![a]);
    assert!(s.query(&vec![Request::exclusive(POS)]).result.is_empty());
    assert!(s.set_component(a, POS, 2).is_err());
    s.release_component(a, POS, Access::Shared);
    s.release_component(a, POS, Access::Shared);
    assert_eq!(s.acquire_component(a, POS, Access::Exclusive), Ok(()));
    assert!(s.query(&vec![Request::shared(POS)]).result.is_empty());
    s.release_component(a, POS, Access::Exclusive);
    assert_eq!(s.query(&vec![Request::exclusive(POS)]).result, vec![a]);
    assert_eq!(
        s.acquire_component(77, POS, Access::Shared),
        Err(ComponentError::ComponentNotFoundedError(ComponentNotFounded(POS)))
    );
}

#[test]
fn clock_missing_after_removal() {
    let mut s: World = Scene::new(0);
    assert_eq!(s.remove_component_from_entity(0, CLOCK_KEY), Ok(()));
    assert_eq!(
        s.clock(),
        Err(ComponentError::ComponentNotFoundedError(ComponentNotFounded(CLOCK_KEY)))
    );
    s.add_timer(Timer::new("t", 0, TimerScheduler::Once, Some(4)));
    assert_eq!(s.tick_timers(), vec![4]);
    s.advance_clock(50);
    assert!(s.clock().is_err());
}

#[test]
fn scene_events() {
    let mut s: World = Scene::new(0);
    s.add_event(HIT);
    s.send_event(HIT, 1);
    s.send_event(HIT, 2);
    assert_eq!(s.read_event(HIT), Some(1));
    s.clear_event(HIT);
    assert_eq!(s.read_event(HIT), None);
    assert!(s.event_storage().is_registered(HIT));
}

#[test]
fn timers_tick_by_clock_delta() {
    let mut s: World = Scene::new(0);
    s.add_timer(Timer::new("once", 2_000, TimerScheduler::Once, Some(9)));
    s.add_timer(Timer::new("stopped", 1, TimerScheduler::Once, Some(8)));
    s.stop_timer("stopped");
    assert!(s.tick_timers().is_empty());
    s.advance_clock(1_500);
    assert_eq!(s.clock().unwrap().delta_time, 1_500);
    assert!(s.tick_timers().is_empty());
    assert_eq!(s.countdowns().timers.len(), 1);
    s.advance_clock(2_100);
    assert_eq!(s.clock().unwrap().delta_time, 600);
    assert_eq!(s.clock().unwrap().time, 2_100);
    assert_eq!(s.tick_timers(), vec![9]);
    assert!(s.countdowns().timers.is_empty());
}

#[test]
fn systems_kept_per_phase_in_order() {
    let mut s: World = Scene::new(0);
    s.add_system(1, LifetimeSystemExec::OnUpdate);
    s.add_systems(vec![(2, LifetimeSystemExec::OnBegin), (3, LifetimeSystemExec::OnUpdate)]);
    s.add_mut_system(4, LifetimeSystemExec::OnFinish);
    s.add_mut_systems(vec![(5, LifetimeSystemExec::OnFinish), (6, LifetimeSystemExec::OnBegin)]);
    assert_eq!(s.systems(LifetimeSystemExec::OnUpdate), &vec![1, 3]);
    assert_eq!(s.systems(LifetimeSystemExec::OnBegin), &vec![2]);
    let taken = s.take_mut_systems(LifetimeSystemExec::OnFinish);
    assert_eq!(taken, vec![4, 5]);
    s.add_mut_system(7, LifetimeSystemExec::OnFinish);
    s.restore_mut_systems(LifetimeSystemExec::OnFinish, taken);
    assert_eq!(s.take_mut_systems(LifetimeSystemExec::OnFinish), vec![4, 5, 7]);
    assert_eq!(s.take_mut_systems(LifetimeSystemExec::OnBegin), vec![6]);
}

/// Drives the frame loop; the update system with id 1 stops the scene.
fn run(s: &mut World, log: &mut Vec<RunAction>) {
    s.start();
    loop {
        let action = s.next_action();
        log.push(action);
        match action {
            RunAction::RunSystems(phase) => {
                let systems = s.take_mut_systems(phase);
                for id in &systems {
                    if *id == 1 {
                        s.stop();
                    }
                }
                s.restore_mut_systems(phase, systems);
            }
            RunAction::TickTimers => {
                s.tick_timers();
            }
            RunAction::AdvanceClock => s.advance_clock(10),
            RunAction::Exit => break,
        }
    }
}

#[test]
fn stop_in_first_update_runs_one_update() {
    let mut s: World = Scene::new(0);
    s.add_mut_system(1, LifetimeSystemExec::OnUpdate);
    let mut log = Vec::new();
    run(&mut s, &mut log);
    assert_eq!(
        log,
        vec![
            RunAction::RunSystems(LifetimeSystemExec::OnBegin),
            RunAction::TickTimers,
            RunAction::RunSystems(LifetimeSystemExec::OnUpdate),
            RunAction::AdvanceClock,
            RunAction::RunSystems(LifetimeSystemExec::OnFinish),
            RunAction::Exit,
        ]
    );
    assert!(!s.is_running());
}

#[test]
fn step_reads_flag_only_at_loop_top() {
    assert_eq!(step(Stage::TimersTicked, false), (Stage::Updated, RunAction::RunSystems(LifetimeSystemExec::OnUpdate)));
    assert_eq!(step(Stage::Updated, false), (Stage::LoopTop, RunAction::AdvanceClock));
    assert_eq!(step(Stage::LoopTop, true), (Stage::TimersTicked, RunAction::TickTimers));
    assert_eq!(step(Stage::LoopTop, false), (Stage::Finished, RunAction::RunSystems(LifetimeSystemExec::OnFinish)));
    assert_eq!(step(Stage::Finished, true), (Stage::Finished, RunAction::Exit));
}

#[test]
fn asset_errors_name_the_path() {
    let e = AssetLoaderError::new_already_loaded("a/b.png");
    assert_eq!(e, AssetLoaderError::AlreadyLoaded("a/b.png".to_string()));
    assert_eq!(e.path(), "a/b.png");
    assert_eq!(e.message(), "AssetLoaderError: a/b.png is already loaded");
    assert_eq!(
        AssetLoaderError::new_not_founded("x").message(),
        "AssetLoaderError: x is not founded"
    );
    assert_eq!(
        AssetLoaderError::new_not_loaded("y").message(),
        "AssetLoaderError: y is not loaded"
    );
    assert_eq!(AssetLoaderError::new_not_founded("x").path(), "x");
    assert!(matches!(AssetLoaderError::new_not_loaded("y"), AssetLoaderError::NotLoaded(p) if p == "y"));
}

#[derive(Debug, PartialEq)]
struct Keys(u8);
impl InputHandler for Keys {}

#[test]
fn input_holds_latest_poll() {
    let mut i = Input::new(Keys(1));
    assert_eq!(i.get(), &Keys(1));
    i.set(Keys(2));
    assert_eq!(i.get(), &Keys(2));
}
