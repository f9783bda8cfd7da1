use wusel::life;
use wusel::life::areas::{Area, Direction, Position, Step};
use wusel::life::objects::ObjectId;
use wusel::life::world::items::ConstructionType;
use wusel::config::loaded_configuration;
use wusel::life::world::{birth_now, PlaceTaker, World};
use wusel::life::wusels::needs::Need;
use wusel::life::wusels::tasks::{Task, TaskBuilder, TaskTag};
use wusel::life::wusels::relations::RelationType;
use wusel::life::wusels::{Ability, Wusel, WuselGender};
use wusel::model::creature::{Wusel as SaveWusel, WuselId};
use wusel::model::world::{Position as SavePosition, World as SaveWorld};
use wusel::simulation::{run_step, tick, RunStep};
use wusel::save::loaded_save;
use wusel::util::more_strings;
use wusel::util::more_strings::{drawn_letter, vocal_chance};

#[test]
fn test_walking() {
    let width: u32 = 20;
    let depth: u32 = 30;

    let mut test_world = World::new(width, depth); // small world.

    // indices
    let wusel_on_x: usize = 0;
    let wusel_on_y: usize = 1;
    let wusel_wild: usize = 2;

    test_world.wusel_new("on_x".to_string(), WuselGender::Female, Position { x: 0, y: 0, z: 0 });
    test_world.wusel_new("on_y".to_string(), WuselGender::Male, Position { x: 2, y: 2, z: 0 });
    test_world.wusel_new("random".to_string(), WuselGender::Male, Position { x: 3, y: 4, z: 0 });

    let repetition: usize = 1000;
    let bad_behaviour_acceptance = 3;

    let mut last_x_position = test_world.wusel_get_position(wusel_on_x).unwrap();
    let mut last_y_position = test_world.wusel_get_position(wusel_on_y).unwrap();

    let mut wuselx_left = false;
    let mut wusely_tofront = false;

    let mut wuselx_bad_count_in_row = 0;
    let mut wusely_bad_count_in_row = 0;

    let mut goal_x: u32 = 0;
    let mut goal_y: u32 = 0;
    let mut goal_rand: Position;

    for i in 0..repetition {
        // assign random walking (x axis).
        if test_world.wusel_get_tasklist_len(wusel_on_x) == Some(0) {
            goal_x = (rand::random::<u32>() + 1 + goal_x) % width;
            wuselx_left = goal_x < last_x_position.x;
            println!("{:03}$ Wusel x goal to ({:2}, 0, 0)", i, goal_x);
            test_world.wusel_assign_to_task(wusel_on_x, TaskBuilder::move_to(Position { x: goal_x, y: 0, z: 0 }));
        }

        // assign random walking (y axis).
        if test_world.wusel_get_tasklist_len(wusel_on_y) == Some(0) {
            goal_y = (rand::random::<u32>() + 1 + goal_y) % depth;
            wusely_tofront = goal_y < last_y_position.y;
            println!("{:03}$ Wusel y goal to ( 0, {:2}, 0)", i, goal_y);
            test_world.wusel_assign_to_task(wusel_on_y, TaskBuilder::move_to(Position { x: 0, y: goal_y, z: 0 }));
        }

        // assign random walking (x-y plane).
        if test_world.wusel_get_tasklist_len(wusel_wild) == Some(0) {
            goal_rand = test_world.position_random();
            println!("{:03}$ Wusel ? goal to ({:2},{:2}, 0)", i, goal_rand.x, goal_rand.y);
            test_world.wusel_assign_to_task(wusel_wild, TaskBuilder::move_to(goal_rand));
        }

        test_world.tick();

        if let Some(p) = test_world.wusel_get_position(wusel_on_x) {
            println!(
                "{:03}> Wusel x on  ({:2},{:2},{:2}) => ({:2},{:2},{:2}) {}",
                i,
                last_x_position.x,
                last_x_position.y,
                last_x_position.z,
                p.x,
                p.y,
                p.z,
                if wuselx_left { "left" } else { "right" }
            );

            let expected_x = if wuselx_left {
                last_x_position.x.saturating_sub(1)
            } else {
                last_x_position.x.saturating_add(1)
            };
            let well_behaved = expected_x == p.x || p.x == goal_x;

            if !well_behaved {
                wuselx_bad_count_in_row += 1;
            } else {
                wuselx_bad_count_in_row = 0;
            }

            assert!(well_behaved || wuselx_bad_count_in_row < bad_behaviour_acceptance);

            last_x_position = p;
        }

        if let Some(p) = test_world.wusel_get_position(wusel_on_y) {
            println!(
                "{:03}> Wusel y on  ({:2},{:2},{:2}) => ({:2},{:2},{:2}) {}",
                i,
                last_y_position.x,
                last_y_position.y,
                last_y_position.z,
                p.x,
                p.y,
                p.z,
                if wusely_tofront { "to front" } else { "to back" }
            );

            let expected_y = if wusely_tofront {
                last_y_position.y.saturating_sub(1)
            } else {
                last_y_position.y.saturating_add(1)
            };
            let well_behaved = expected_y == p.y || p.y == goal_y;

            if !well_behaved {
                wusely_bad_count_in_row += 1;
            } else {
                wusely_bad_count_in_row = 0;
            }

            assert!(well_behaved || wusely_bad_count_in_row < bad_behaviour_acceptance);

            last_y_position = p;
        }

        if let Some(p) = test_world.wusel_get_position(wusel_wild) {
            println!("{:03}> Wusel ? on ({:2},{:2},{:2})", i, p.x, p.y, p.z);
        }
    }
}

/// Let two wusels carry, drop and consume bread for a while.
fn consume_bread() {
    let mut test_world = World::new(20, 5); // small world.

    // Empty test_world tick.
    test_world.tick();

    test_world.wusel_new("Eater".to_string(), WuselGender::Female, Position { x: 1, y: 0, z: 0 });
    test_world.wusel_new("Starver".to_string(), WuselGender::Male, Position { x: 2, y: 0, z: 0 });

    // Create food: transportable, no storage.
    let food1_id = test_world.food_new("Bread", 100);

    let food2_id = test_world.object_duplicate(0).unwrap(); // must be there.
    let somewhere = test_world.position_random();
    test_world.object_set_position(food2_id, somewhere);

    // Put a copy into the world.
    let somewhere = test_world.position_random();
    test_world.object_set_position(food1_id, somewhere);

    // Get the food and transport it somewhere else.
    test_world.wusel_assign_to_task(1, TaskBuilder::use_object(food1_id, 1)); // take
    let somewhere = test_world.position_random();
    test_world.wusel_assign_to_task(1, TaskBuilder::move_to(somewhere));
    test_world.wusel_assign_to_task(1, TaskBuilder::use_object(food1_id, 2)); // drop
    let somewhere = test_world.position_random();
    test_world.wusel_assign_to_task(1, TaskBuilder::move_to(somewhere));
    test_world.wusel_assign_to_task(1, TaskBuilder::use_object(food1_id, 1)); // take not existing?

    // Let the other wusel wait, then it tries to get the food as well, and consume it.
    let far_corner = Position { x: test_world.get_width() - 1, y: test_world.get_depth() - 1, z: 0 };
    test_world.wusel_assign_to_task(0, TaskBuilder::move_to(far_corner));
    test_world.wusel_assign_to_task(0, TaskBuilder::use_object(food1_id, 1)); // take as well.
    let somewhere = test_world.position_random();
    test_world.wusel_assign_to_task(0, TaskBuilder::move_to(somewhere));
    test_world.wusel_assign_to_task(0, TaskBuilder::use_object(food1_id, 3)); // consume.
    let somewhere = test_world.position_random();
    test_world.wusel_assign_to_task(0, TaskBuilder::move_to(somewhere));
    let somewhere = test_world.position_random();
    test_world.wusel_assign_to_task(0, TaskBuilder::move_to(somewhere));

    for i in 0usize..2 {
        for n in Need::VALUES.iter() {
            test_world.wusel_set_need(i, n, 100);
        }
    }

    for _ in 0..300 {
        test_world.tick(); // progress time.

        if !test_world.wusel_get_all_unbusy().is_empty() {
            break;
        }
    }
}

#[test]
fn task_test_test_consume_bread() {
    consume_bread();
}

#[test]
fn life_test_consume_bread() {
    consume_bread();
}

#[test]
fn wusel_init() {
    let wusel = Wusel::new(0, "Wusel Name Start".to_string(), WuselGender::Female);

    assert_eq!(wusel.get_id(), 0usize);
    assert_eq!(wusel.get_name(), "Wusel Name Start".to_string());
    assert_eq!(wusel.get_gender(), WuselGender::Female);

    assert_eq!(wusel.is_alive(), true);

    for &need in Need::VALUES.iter() {
        assert_eq!(wusel.get_need(need), need.get_full());
    }

    for &ability in Ability::VALUES.iter() {
        assert_eq!(wusel.get_ability(ability), 0u32);
    }

    assert!(!wusel.is_pregnant());
    assert_eq!(wusel.get_other_parent(), None);
    assert_eq!(wusel.get_remaining_pregnancy_days(), None);

    assert!(wusel.has_tasklist_empty());
    assert_eq!(wusel.get_tasklist_len(), 0usize);
    assert_eq!(wusel.get_tasklist_names().len(), 0usize);
    assert_eq!(wusel.get_next_task_index_with(&|_: &Task| true), None);
}

#[test]
fn wusel_rename_and_co() {
    let mut wusel = Wusel::new(0, "Wusel Name Start".to_string(), WuselGender::Female);

    assert_eq!(wusel.get_id(), 0usize);
    assert_eq!(wusel.get_name(), "Wusel Name Start".to_string());
    assert_eq!(wusel.get_gender(), WuselGender::Female);

    wusel.set_name("NewName".to_string());
    assert_eq!(wusel.get_name(), "NewName".to_string());

    wusel.set_gender(WuselGender::Male);
    assert_eq!(wusel.get_gender(), WuselGender::Male);

    // rest stays the same.

    assert_eq!(wusel.is_alive(), true);

    for &need in Need::VALUES.iter() {
        assert_eq!(wusel.get_need(need), need.get_full());
    }

    for &ability in Ability::VALUES.iter() {
        assert_eq!(wusel.get_ability(ability), 0u32);
    }

    assert!(!wusel.is_pregnant());
    assert_eq!(wusel.get_other_parent(), None);
    assert_eq!(wusel.get_remaining_pregnancy_days(), None);

    assert!(wusel.has_tasklist_empty());
    assert_eq!(wusel.get_tasklist_len(), 0usize);
    assert_eq!(wusel.get_tasklist_names().len(), 0usize);
    assert_eq!(wusel.get_next_task_index_with(&|_: &Task| true), None);
}

#[test]
fn wusel_tick_to_death() {
    let mut wusel = Wusel::new(0, "Wusel Name Start".to_string(), WuselGender::Female);

    assert!(wusel.is_alive());

    for &need in Need::VALUES.iter() {
        assert_eq!(wusel.get_need(need), need.get_full());
    }

    for &ability in Ability::VALUES.iter() {
        assert_eq!(wusel.get_ability(ability), 0u32);
    }

    let water_full = Need::WATER.get_full();

    // almost to die of thirst.
    for i in 0..water_full - 1 {
        wusel.wusel_tick(i % life::DAY == 0 && i > 0); // day.
        assert_ne!(wusel.get_need(Need::WATER), 0u32);
        assert_ne!(wusel.get_need(Need::WATER), water_full);
        assert!(wusel.is_alive());
    }

    let days_passed = water_full / life::DAY;
    let day_range = (days_passed - 1)..(days_passed + 1);

    println!("Dayes passed: {}, age: {}", days_passed, wusel.get_lived_days());

    // around the days old.
    assert!(day_range.contains(&wusel.get_lived_days()));

    assert!(wusel.is_alive());
    assert_eq!(wusel.get_need(Need::WATER), 1u32);

    assert!(!wusel.is_pregnant());
    assert_eq!(wusel.get_other_parent(), None);
    assert_eq!(wusel.get_remaining_pregnancy_days(), None);

    assert!(wusel.has_tasklist_empty());
    assert_eq!(wusel.get_tasklist_len(), 0usize);
    assert_eq!(wusel.get_tasklist_names().len(), 0usize);
    assert_eq!(wusel.get_next_task_index_with(&|_: &Task| true), None);

    wusel.wusel_tick(true);
    assert_eq!(wusel.is_alive(), false); // just died.
}

#[test]
fn wusel_impregnate() {
    let mut wusel0 = Wusel::new(0, "Wusel0".to_string(), WuselGender::Female);
    let mut wusel1 = Wusel::new(1, "Wusel1".to_string(), WuselGender::Female); // no restrictions.

    wusel0.set_pregnancy(Some(wusel1.get_id()), Some(3)); // 3 days pregnant with wusel1's child.

    assert!(wusel0.is_pregnant());
    assert!(!wusel1.is_pregnant()); // not pregnant.

    assert!(matches!(wusel0.get_other_parent(), Some(id) if id == wusel1.get_id()));
    assert!(matches!(wusel0.get_remaining_pregnancy_days(), Some(days) if days == 3));

    for i in 1..4 {
        // tick day.
        wusel0.wusel_tick(true);
        wusel1.wusel_tick(true);
        assert_eq!(wusel0.get_lived_days(), i);
        assert_eq!(wusel1.get_lived_days(), i);
    }

    assert!(wusel0.is_pregnant()); // still pregnant
    assert!(!wusel1.is_pregnant()); // still not pregnant.

    assert!(matches!(wusel0.get_other_parent(), Some(id) if id == wusel1.get_id()));
    assert!(matches!(wusel0.get_remaining_pregnancy_days(), Some(days) if days == 0));

    let baby = Wusel::new(2, "Baby".to_string(), WuselGender::random());
    wusel0.set_pregnancy(None, None); // done.

    assert_eq!(baby.get_lived_days(), 0);
    assert!(baby.is_alive());
}

#[test]
fn wusel_test_assignment() {
    let mut wusel0 = Wusel::new(0, "Wusel0".to_string(), WuselGender::Female);
    let wusel1 = Wusel::new(1, "Wusel1".to_string(), WuselGender::Female);

    let init_time = 0;
    let friendly = true;
    let romantically = true;

    // The identifier the world gives its first object (a bread).
    let food1_id: ObjectId = 0;

    wusel0.assign_to_task(init_time, TaskBuilder::move_to(Position { x: 0, y: 4, z: 0 }));
    wusel0.assign_to_task(init_time, TaskBuilder::use_object(food1_id, 1));
    wusel0.assign_to_task(init_time, TaskBuilder::meet_with(wusel1.get_id(), friendly, romantically));

    assert!(!wusel0.has_tasklist_empty());
    assert!(wusel1.has_tasklist_empty()); // does nothing.
    assert_eq!(wusel0.get_tasklist_len(), 3);
    assert_eq!(wusel1.get_tasklist_len(), 0);

    if let Some(task) = wusel0.peek_ongoing_task() {
        if let TaskTag::MoveToPos(pos) = task.get_passive_part() {
            let Position { x, y, z } = pos;
            assert_eq!(x, 0);
            assert_eq!(y, 4);
            assert_eq!(z, 0);
        } else {
            assert!(false);
        }
    } else {
        assert!(false);
    }

    let wusel1_id = wusel1.get_id();
    let opt_index: Option<usize> = wusel0.get_next_task_index_with(&|task: &Task| match task.get_passive_part() {
        TaskTag::MeetWith(other_id, friend, lover) => {
            other_id == wusel1_id && friend == friendly && lover == romantically
        },
        _ => false,
    });

    println!("Got index: {}", opt_index.unwrap_or(999));

    assert!(opt_index.is_some());
    let index = opt_index.unwrap();
    assert_ne!(index, wusel0.get_tasklist_len() - 1); // != ongoing
    assert_eq!(index, 0); // last set.

    let prioritize_task_success = wusel0.prioritize_task(index);
    assert!(prioritize_task_success);
}

#[test]
fn should_simulate_time_within_the_tick() {
    let save = SaveWorld::from(7, vec![SaveWusel::new(WuselId::generate())]);

    let simulation_done = tick(&save).unwrap();

    assert_eq!(save.time() + 1, simulation_done.time(), "Time Passed ticked one time.");
}

#[test]
fn should_decrease_fullness_of_wusel_wellbeing_every_tick() {
    let wusel_id = WuselId::generate();
    let mut wusel = SaveWusel::new(wusel_id);
    wusel.set_position(SavePosition::from(0, 0, 0));
    wusel.set_age(0u64);
    wusel.set_wakefulness(10u64);
    wusel.set_nourishment(10u64);
    wusel.set_digestion(10u64);
    wusel.set_tidiness(10u64);

    let save = SaveWorld::from(0, vec![wusel]);
    let wusel_old = save.wusel_by_id(wusel_id).unwrap();

    // act.
    let simulation_result = tick(&save).unwrap();
    let wusel_udpated = simulation_result.wusel_by_id(wusel_id).unwrap();

    // assert.
    assert!(wusel_udpated.wakefulness() < wusel_old.wakefulness());
    assert!(wusel_udpated.nourishment() < wusel_old.nourishment());
    assert!(wusel_udpated.digestion() < wusel_old.digestion());
    assert!(wusel_udpated.tidiness() < wusel_old.tidiness());
}

#[test]
fn should_increase_wusel_age_every_tick() {
    let wusel_id = WuselId::generate();
    let mut wusel = SaveWusel::new(wusel_id);
    wusel.set_position(SavePosition::from(0, 0, 0));
    wusel.set_age(0u64);
    wusel.set_wakefulness(10u64);
    wusel.set_nourishment(10u64);
    wusel.set_digestion(10u64);
    wusel.set_tidiness(10u64);

    let save = SaveWorld::from(0, vec![wusel]);
    let wusel_old = save.wusel_by_id(wusel_id).unwrap();

    // act.
    let simulation_result = tick(&save).unwrap();
    let wusel_udpated = simulation_result.wusel_by_id(wusel_id).unwrap();

    // assert.
    assert!(wusel_udpated.age() > wusel_old.age());
}

#[test]
fn test_random_names() {
    // property testing like.
    for size in 1usize..100 {
        assert_eq!(size, more_strings::name_gen(size).len());
    }
}

#[test]
fn set_position_moves_the_wusel_with_the_identifier() {
    let mut w = World::new(5, 5);
    w.wusel_new("A".to_string(), WuselGender::Female, Position { x: 0, y: 0, z: 0 });
    w.wusel_new("B".to_string(), WuselGender::Male, Position { x: 3, y: 3, z: 0 });
    w.wusel_set_position(1, Position { x: 1, y: 1, z: 0 });
    assert_eq!(Some(Position { x: 1, y: 1, z: 0 }), w.wusel_get_position(1));
    assert_eq!(Some(Position { x: 0, y: 0, z: 0 }), w.wusel_get_position(0));
}

#[test]
fn set_position_beyond_the_world_goes_to_the_border() {
    let mut w = World::new(3, 3);
    w.wusel_new("A".to_string(), WuselGender::Female, Position { x: 0, y: 0, z: 0 });
    w.recalculate_positions_for_all_placetakers();
    assert_eq!(1, w.positions_for_all_placetakers()[0].len());
    w.wusel_set_position(0, Position { x: 7, y: 1, z: 0 });
    assert_eq!(Some(Position { x: 2, y: 1, z: 0 }), w.wusel_get_position(0));
    let grid = w.positions_for_all_placetakers();
    assert_eq!(1, grid[5].len());
    assert_eq!(0, grid[0].len());
    w.wusel_set_position(0, Position { x: 9, y: 9, z: 4 });
    assert_eq!(Some(Position { x: 2, y: 2, z: 0 }), w.wusel_get_position(0));
    // An unknown wusel changes nothing.
    w.wusel_set_position(5, Position { x: 0, y: 0, z: 0 });
    assert_eq!(Some(Position { x: 2, y: 2, z: 0 }), w.wusel_get_position(0));
}

#[test]
fn set_position_in_a_world_without_positions_moves_nothing() {
    let mut w = World::new(0, 3);
    w.wusel_new("A".to_string(), WuselGender::Female, Position { x: 0, y: 0, z: 0 });
    w.wusel_set_position(0, Position { x: 1, y: 1, z: 0 });
    assert_eq!(1, w.wusel_count());
}

#[test]
fn span_contains_both_corners() {
    let a = Position::new(0, 0, 0);
    let b = Position::new(2, 3, 1);
    let s = Area::span(&a, &b);
    assert!(s.contains_position(&a));
    assert!(s.contains_position(&b));
    assert_eq!(Area::new(Position::new(0, 0, 0), 3, 4, 2), s);
    assert_eq!(Area::new(Position::new(0, 0, 0), 3, 4, 2), Area::span(&b, &a));
    assert!(!s.contains_position(&Position::new(3, 3, 1)));
}

#[test]
fn directed_neighbour_stays_within_the_area() {
    let a = Area::new(Position::new(0, 0, 0), 3, 3, 1);
    let east = Direction { x: Step::Forward, y: Step::Stay, z: Step::Stay };
    assert_eq!(None, a.get_directed_neighbour(Position::new(2, 0, 0), east));
    assert_eq!(Some(Position::new(2, 0, 0)), a.get_directed_neighbour(Position::new(1, 0, 0), east));
    let west = Direction { x: Step::Backward, y: Step::Stay, z: Step::Stay };
    assert_eq!(None, a.get_directed_neighbour(Position::new(0, 1, 0), west));
    let up = Direction { x: Step::Stay, y: Step::Stay, z: Step::Forward };
    assert_eq!(None, a.get_directed_neighbour(Position::new(1, 1, 0), up));
}

#[test]
fn random_positions_lie_within_the_area() {
    let a = Area::new(Position::new(5, 7, 0), 3, 2, 1);
    for _ in 0..200 {
        let p = a.position_random();
        assert!(a.contains_position(&p));
    }
}

#[test]
fn duplicate_gets_a_new_identifier() {
    let mut w = World::new(5, 5);
    let a = w.food_new("Bread", 3);
    assert_eq!(0, a);
    let d = w.object_duplicate(0);
    assert_eq!(Some(1), d);
    assert_eq!(None, w.object_duplicate(5));
    let b = w.food_new("Bread", 2);
    assert_eq!(2, b);
    w.object_set_position(b, Position { x: 4, y: 4, z: 0 });
    w.object_set_position(1, Position { x: 1, y: 0, z: 0 });
    assert_eq!(Some(Position { x: 4, y: 4, z: 0 }), w.object_get_position(b));
    assert_eq!(Some(Position { x: 1, y: 0, z: 0 }), w.object_get_position(1));
    assert_eq!(None, w.object_get_position(a));
}

#[test]
fn walking_is_one_step_closer_each_tick() {
    let mut w = World::new(20, 30);
    w.wusel_new("A".to_string(), WuselGender::Female, Position { x: 0, y: 0, z: 0 });
    w.wusel_assign_to_task(0, TaskBuilder::move_to(Position { x: 5, y: 0, z: 0 }));
    w.tick();
    assert_eq!(Some(Position { x: 1, y: 0, z: 0 }), w.wusel_get_position(0));
    for x in 2..=5 {
        w.tick();
        assert_eq!(Some(Position { x, y: 0, z: 0 }), w.wusel_get_position(0));
    }
    // On the goal, the walk is over.
    w.tick();
    w.tick();
    assert_eq!(Some(Position { x: 5, y: 0, z: 0 }), w.wusel_get_position(0));
    assert_eq!(Some(0), w.wusel_get_tasklist_len(0));
}

#[test]
fn waiting_wusel_off_the_grid_still_ticks() {
    let mut w = World::new(3, 3);
    w.wusel_new("Far".to_string(), WuselGender::Female, Position { x: 0, y: 5, z: 0 });
    w.wusel_assign_to_task(0, TaskBuilder::new("Wait".to_string()).set_duration(3));
    w.tick();
    assert_eq!(1, w.get_time());
    let ongoing = w.wusel_peek_ongoing_task(0).unwrap();
    assert!(ongoing.has_started());
    assert_eq!(1, ongoing.get_start_time());
    assert_eq!(1, ongoing.get_done_steps());
}

#[test]
fn a_run_ticks_until_done_or_interrupted() {
    assert_eq!(RunStep::Tick, run_step(0, 11, true));
    assert_eq!(RunStep::Tick, run_step(10, 11, true));
    assert_eq!(RunStep::Finish, run_step(11, 11, true));
    assert_eq!(RunStep::Finish, run_step(0, 0, true));
    assert_eq!(RunStep::Interrupt, run_step(3, 11, false));
}

#[test]
fn recalculated_grid_holds_what_stands_on_each_cell() {
    let mut w = World::new(5, 5);
    w.construction_new(ConstructionType::Wall(true, 3), Position { x: 1, y: 3, z: 0 });
    w.wusel_new("A".to_string(), WuselGender::Female, Position { x: 1, y: 1, z: 0 });
    let bread = w.food_new("Bread", 2);
    w.object_set_position(bread, Position { x: 2, y: 2, z: 0 });
    w.recalculate_positions_for_all_placetakers();
    let grid = w.positions_for_all_placetakers();
    assert_eq!(vec![PlaceTaker::Wusel(0)], grid[1 + 5]);
    assert_eq!(1, grid[2 + 10].len());
    assert!(matches!(grid[2 + 10][0], PlaceTaker::Object(0, _)));
    for cell in [16usize, 17, 18] {
        assert_eq!(1, grid[cell].len());
        assert!(matches!(grid[cell][0], PlaceTaker::Construction(ConstructionType::Wall(true, 3), 0)));
    }
    let occupied = [6usize, 12, 16, 17, 18];
    for cell in 0..25usize {
        if !occupied.contains(&cell) {
            assert!(grid[cell].is_empty());
        }
    }
}

#[test]
fn relations_are_shown_in_the_order_of_their_keys() {
    let mut w = World::new(10, 10);
    w.wusel_new("A".to_string(), WuselGender::Female, Position { x: 0, y: 0, z: 0 });
    w.wusel_new("B".to_string(), WuselGender::Male, Position { x: 1, y: 0, z: 0 });
    w.wusel_new("C".to_string(), WuselGender::Male, Position { x: 2, y: 0, z: 0 });
    w.wusel_update_relations(2, 0, true, RelationType::Friendship);
    w.wusel_update_relations(1, 2, false, RelationType::Romance);
    w.wusel_update_relations(0, 1, true, RelationType::Romance);
    assert_eq!(
        "Relations with A: [\"B\": 'Strangers' \u{2639}0 \u{2661}1][\"C\": 'Strangers' \u{2639}1 \u{2661}0]",
        w.wusel_show_relations(0)
    );
    assert_eq!(
        "Relations with C: [\"A\": 'Strangers' \u{2639}1 \u{2661}0][\"B\": 'Strangers' \u{2639}0 \u{2661}-1]",
        w.wusel_show_relations(2)
    );
    for _ in 0..11 {
        w.wusel_update_relations(0, 1, false, RelationType::Friendship);
    }
    assert_eq!(
        "Relations with B: [\"A\": 'Strangers' \u{2639}-11 \u{2661}1][\"C\": 'Strangers' \u{2639}0 \u{2661}-1]",
        w.wusel_show_relations(1)
    );
}

#[test]
fn new_constructions_keep_the_others() {
    let mut w = World::new(5, 5);
    w.construction_new(ConstructionType::Door(false), Position { x: 0, y: 0, z: 0 });
    w.construction_new(ConstructionType::Wall(true, 3), Position { x: 1, y: 1, z: 0 });
    w.construction_new(ConstructionType::Door(false), Position { x: 2, y: 2, z: 0 });
    let g = w.positions_for_all_placetakers();
    let door = vec![PlaceTaker::Construction(ConstructionType::Door(false), 0)];
    let wall = vec![PlaceTaker::Construction(ConstructionType::Wall(true, 3), 0)];
    assert_eq!(door, g[0]);
    assert_eq!(door, g[12]);
    assert_eq!(wall, g[6]);
    assert_eq!(wall, g[7]);
    assert_eq!(wall, g[8]);
    for cell in 0..25usize {
        if ![0usize, 6, 7, 8, 12].contains(&cell) {
            assert!(g[cell].is_empty());
        }
    }
}

#[test]
fn a_wall_beyond_the_world_is_cut() {
    let mut w = World::new(3, 3);
    w.construction_new(ConstructionType::Wall(false, 5), Position { x: 1, y: 1, z: 0 });
    let g = w.positions_for_all_placetakers();
    assert_eq!(1, g[4].len());
    assert_eq!(1, g[7].len());
    assert_eq!(2, g.iter().filter(|cell| !cell.is_empty()).count());
}

#[test]
fn births_are_more_likely_near_the_end() {
    assert!(birth_now(0, Some(0)));
    assert!(birth_now(89, Some(0)));
    assert!(!birth_now(90, Some(0)));
    assert!(!birth_now(190, Some(0)));
    assert!(birth_now(255, Some(0)));
    assert!(birth_now(74, Some(1)));
    assert!(!birth_now(75, Some(1)));
    assert!(birth_now(9, Some(2)));
    assert!(!birth_now(10, Some(2)));
    assert!(birth_now(109, None));
    assert!(!birth_now(10, None));
}

#[test]
fn vocals_follow_consonants_more_often() {
    assert_eq!(34, vocal_chance('a'));
    assert_eq!(34, vocal_chance('y'));
    assert_eq!(70, vocal_chance('b'));
    assert_eq!(70, vocal_chance('K'));
    assert_eq!('a', drawn_letter(34, 33, 0));
    assert_eq!('b', drawn_letter(34, 34, 0));
    assert_eq!('e', drawn_letter(70, 169, 7));
    assert_eq!('h', drawn_letter(70, 70, 25));
    assert_eq!('z', drawn_letter(0, 0, 19));
    assert_eq!('y', drawn_letter(100, 99, 5));
}

#[test]
fn loaded_configuration_and_save() {
    let config = loaded_configuration();
    assert_eq!(1, config.velocity());
    assert_eq!(10, config.max_iterations());
    assert_eq!(0, config.renderer());
    let save = loaded_save();
    assert_eq!(42, save.time());
    assert_eq!(1, save.wusels_iter().count());
}
