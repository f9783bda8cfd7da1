use wusel::life::areas::Position;
use wusel::life::world::world2::World2;
use wusel::life::world::World;
use wusel::life::wusels::tasks::TaskBuilder;
use wusel::life::wusels::WuselGender;

/// Test doing tasks.
#[test]
fn life_test_create_bread() {
    // Example: Wusel wants to cook.
    // 1. Go to (free) cooking station: (move)
    // 2. Wait for the Station to be free
    // 3. Work on station.
    // 4. Fetch tomatoes to be cut and prepared (needs Tomatoes)
    // 5. Cut (consume) tomatoes, create sauce
    // 6. Heat up sauce.
    // 7. Creates hot tomato sauce. (can get cold or be eaten.)
}

/// Test doing tasks.
#[test]
fn task_test_test_create_bread() {
    // Cook a meal, that needs a working station, tomatoes, a knife and pot.
    // Using objects may influence the needs and skills.
}

/// Test mutually meeting, which may cause deadlocks.
/// 1st: [Read, Meet 2nd]; 2nd: [Meet 3rd]; 3rd: [Meet 4th]; 4th: [Meet 1st].
#[test]
fn test_mutal_meeting() {
    println!("[test] Mutual Meeting, causes for circular deadlocks.");
    let mut test_world: World = World::new(80, 30);

    // Empty test_world tick.
    test_world.tick();

    test_world.wusel_new("1st".to_string(), WuselGender::Female, Position { x: 1, y: 0, z: 0 }); // female
    test_world.wusel_new("2nd".to_string(), WuselGender::Female, Position { x: 3, y: 0, z: 0 }); // female
    test_world.wusel_new("3rd".to_string(), WuselGender::Male, Position { x: 5, y: 0, z: 0 }); // male
    test_world.wusel_new("4th".to_string(), WuselGender::Male, Position { x: 9, y: 0, z: 0 }); // male

    // 4 wusels created.
    assert_eq!(4, test_world.wusel_count());

    // Create an easy talk, without any preconditions.
    let reading: TaskBuilder = TaskBuilder::new(String::from("Reading")).set_duration(5 /*ticks*/);

    test_world.tick();

    // first wusel is also doing something else
    test_world.wusel_assign_to_task(0, reading.clone()); // do reading.

    // scenario: everyone wants too meet the next one.
    test_world.wusel_assign_to_task(0, TaskBuilder::meet_with(1, true, false).set_duration(7)); // mutual meeting.
    test_world.wusel_assign_to_task(1, TaskBuilder::meet_with(2, true, false).set_duration(7)); // mutual meeting.
    test_world.wusel_assign_to_task(2, TaskBuilder::meet_with(3, true, false).set_duration(7)); // mutual meeting.
    test_world.wusel_assign_to_task(3, TaskBuilder::meet_with(0, true, false).set_duration(7)); // mutual meeting.

    // 90 ticks later.
    for _ in 0..90 {
        test_world.tick();
    }
}

/// Test mutually meeting, which may cause deadlocks.
/// 1st: [Read, Meet 2nd]; 2nd: [Meet 3rd]; 3rd: [Meet 4th]; 4th: [Meet 1st].
#[test]
fn test_mutual_meeting() {
    println!("[test] Mutual Meeting, causes for circular deadlocks.");
    let mut test_world: World = World::new(80, 30);

    // Empty test_world tick.
    test_world.tick();

    test_world.wusel_new("1st".to_string(), WuselGender::Female, Position { x: 1, y: 0, z: 0 });
    test_world.wusel_new("2nd".to_string(), WuselGender::Female, Position { x: 3, y: 0, z: 0 });
    test_world.wusel_new("3rd".to_string(), WuselGender::Male, Position { x: 5, y: 0, z: 0 });
    test_world.wusel_new("4th".to_string(), WuselGender::Male, Position { x: 9, y: 0, z: 0 });

    // 4 wusels created.
    assert_eq!(4, test_world.wusel_count());

    // => no preconditions.
    // => does 'nothing' for ticks steps.
    let reading: TaskBuilder = TaskBuilder::new(String::from("Reading")).set_duration(5); // ticks

    test_world.tick();

    // first wusel is also doing something else
    test_world.wusel_assign_to_task(0, reading.clone()); // do reading.

    // scenario: everyone wants too meet the next one.
    test_world.wusel_assign_to_task(0, TaskBuilder::meet_with(1, true, false).set_duration(7));
    test_world.wusel_assign_to_task(1, TaskBuilder::meet_with(2, true, false).set_duration(7));
    test_world.wusel_assign_to_task(2, TaskBuilder::meet_with(3, true, false).set_duration(7));
    test_world.wusel_assign_to_task(3, TaskBuilder::meet_with(0, true, false).set_duration(7));

    // 90 ticks later.
    for _ in 0..90 {
        test_world.tick();
    }
}

#[test]
fn should_create_world() {
    // setup
    let id = 1234usize;
    let width = 13;
    let depth = 19;
    let height = 7;

    // exec
    let world = World2::new(id, width, depth, height);

    // assert
    let area = world.area();
    assert_eq!(width, area.width());
    assert_eq!(depth, area.depth());
    assert_eq!(height, area.height());
    assert_eq!(id, world.id());

    // empty world.
    assert!(world.wusels().is_empty());
}
