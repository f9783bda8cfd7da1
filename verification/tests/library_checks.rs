use wusel::config::Config;
use wusel::life::areas::{Area, Position};
use wusel::life::objects::{Object, ObjectType};
use wusel::life::world::world2::World2;
use wusel::life::world::{show_relation_entry, World};
use wusel::life::wusels::needs::Need;
use wusel::life::wusels::relations::{Relation, RelationType};
use wusel::life::wusels::tasks::{TaskBuilder, TaskTag};
use wusel::life::wusels::{Ability, Life, Wusel, WuselGender};
use wusel::model::creature::{Wusel as SaveWusel, WuselId};
use wusel::model::world::{Position as SavePosition, World as SaveWorld};
use wusel::renderer::{get_renderer, mute_renderer, Renderer};
use wusel::save::{new_save, store_save};
use wusel::simulation::tick;
use wusel::tui::bar::progres_bar_cells;
use wusel::tui::base::{darken_rgb, hash_color_to_rgb, Rgb, ScreenPos};
use wusel::tui::screen::Pos;
use wusel::tui::world_view::render_field;
use wusel::util;
use wusel::util::more_strings;

fn two_neighbours() -> World {
    let mut world = World::new(10, 10);
    world.wusel_new("A".to_string(), WuselGender::Female, Position { x: 1, y: 0, z: 0 });
    world.wusel_new("B".to_string(), WuselGender::Male, Position { x: 2, y: 0, z: 0 });
    world
}

#[test]
fn new_world_is_empty_and_sized() {
    let world = World::new(8, 5);
    assert_eq!(0, world.get_time());
    assert_eq!((8, 5, 1), world.get_dimensions());
    assert_eq!(0, world.wusel_count());
    assert_eq!(40, world.positions_for_all_placetakers().len());
    assert!(world.positions_for_all_placetakers().iter().all(|p| p.is_empty()));
}

#[test]
fn tick_advances_the_clock_by_one() {
    let mut world = two_neighbours();
    world.tick();
    world.tick();
    assert_eq!(2, world.get_time());
    assert_eq!(2, world.wusel_count());
}

#[test]
fn tick_decays_needs() {
    let mut world = two_neighbours();
    let full_water = Need::WATER.get_full();
    world.tick();
    assert_eq!(full_water - 1, world.wusel_get_need(0, Need::WATER));
    // warmth and health do not decay by themselves.
    assert_eq!(Need::WARMTH.get_full(), world.wusel_get_need(0, Need::WARMTH));
}

#[test]
fn need_read_back_after_set() {
    let mut world = two_neighbours();
    world.wusel_set_need(1, &Need::FOOD, 42);
    assert_eq!(42, world.wusel_get_need(1, Need::FOOD));
    assert_eq!(Need::FOOD.get_full(), world.wusel_get_need(0, Need::FOOD));
    // unknown wusel reads 0.
    assert_eq!(0, world.wusel_get_need(7, Need::FOOD));
    world.wusel_set_need_relative(1, &Need::FOOD, -50);
    assert_eq!(0, world.wusel_get_need(1, Need::FOOD));
    world.wusel_set_need_relative(1, &Need::FOOD, 8);
    assert_eq!(8, world.wusel_get_need(1, Need::FOOD));
}

#[test]
fn wusel_starving_dies() {
    let mut world = two_neighbours();
    world.wusel_set_need(0, &Need::WATER, 1);
    world.tick();
    assert_eq!(Some(false), world.wusel_is_alive(0));
    assert_eq!(Some(true), world.wusel_is_alive(1));
    assert_eq!(vec![1usize], world.wusel_get_all_alive());
    // the dead stay dead.
    world.wusel_set_need(0, &Need::WATER, 100);
    world.tick();
    assert_eq!(Some(false), world.wusel_is_alive(0));
}

#[test]
fn meeting_neighbours_become_friends() {
    let mut world = two_neighbours();
    world.wusel_assign_to_task(0, TaskBuilder::meet_with(1, true, false));
    // first tick: the passive is told to wait to be met.
    world.tick();
    assert_eq!(Some(1), world.wusel_get_tasklist_len(1));
    assert_eq!("Relations with A: Has no relations.", world.wusel_show_relations(0));
    // second tick: they meet.
    world.tick();
    assert_eq!("Relations with A: [\"B\": 'Strangers' \u{2639}1 \u{2661}0]", world.wusel_show_relations(0));
    assert_eq!("Relations with B: [\"A\": 'Strangers' \u{2639}1 \u{2661}0]", world.wusel_show_relations(1));
    // then both are done.
    world.tick();
    world.tick();
    world.tick();
    assert_eq!(vec![0usize, 1usize], world.wusel_get_all_unbusy());
}

#[test]
fn show_relations_of_no_wusel() {
    let world = two_neighbours();
    assert_eq!("There is no wusel to show.", world.wusel_show_relations(5));
}

#[test]
fn relations_update_in_either_order() {
    let mut world = two_neighbours();
    world.wusel_update_relations(1, 0, false, RelationType::Romance);
    world.wusel_update_relations(0, 1, false, RelationType::Romance);
    world.wusel_update_relations(0, 1, true, RelationType::Friendship);
    assert_eq!("Relations with A: [\"B\": 'Strangers' \u{2639}1 \u{2661}-2]", world.wusel_show_relations(0));
}

#[test]
fn walking_goes_straight_to_the_goal() {
    let mut world = World::new(10, 10);
    world.wusel_new("Walker".to_string(), WuselGender::Female, Position { x: 0, y: 0, z: 0 });
    world.wusel_assign_to_task(0, TaskBuilder::move_to(Position { x: 3, y: 0, z: 0 }));
    world.tick();
    assert_eq!(Some(Position { x: 1, y: 0, z: 0 }), world.wusel_get_position(0));
    world.tick();
    world.tick();
    assert_eq!(Some(Position { x: 3, y: 0, z: 0 }), world.wusel_get_position(0));
    // on the goal: the step is done, the task is cleaned away on the next tick.
    world.tick();
    assert_eq!(Some(1), world.wusel_get_tasklist_len(0));
    world.tick();
    assert_eq!(Some(0), world.wusel_get_tasklist_len(0));
}

#[test]
fn walking_diagonally() {
    let mut world = World::new(10, 10);
    world.wusel_new("Walker".to_string(), WuselGender::Male, Position { x: 0, y: 0, z: 0 });
    world.wusel_assign_to_task(0, TaskBuilder::move_to(Position { x: 2, y: 2, z: 0 }));
    world.tick();
    assert_eq!(Some(Position { x: 1, y: 1, z: 0 }), world.wusel_get_position(0));
    assert_eq!(vec![Position { x: 1, y: 1, z: 0 }], world.positions_for_wusels());
}

#[test]
fn tasks_are_first_in_first_out() {
    let mut world = two_neighbours();
    world.wusel_assign_to_task(0, TaskBuilder::new("First".to_string()).set_duration(2));
    world.wusel_assign_to_task(0, TaskBuilder::new("Second".to_string()));
    assert_eq!(vec!["Second".to_string(), "First".to_string()], world.wusel_get_tasklist_names(0));
    assert_eq!("First".to_string(), world.wusel_peek_ongoing_task(0).unwrap().get_name());
    world.wusel_abort_task(0, 1);
    assert_eq!(vec!["Second".to_string()], world.wusel_get_tasklist_names(0));
    // unknown wusel has no names.
    assert!(world.wusel_get_tasklist_names(9).is_empty());
}

#[test]
fn waiting_task_counts_steps() {
    let mut world = two_neighbours();
    world.wusel_assign_to_task(1, TaskBuilder::new("Reading".to_string()).set_duration(2));
    world.tick();
    let task = world.wusel_peek_ongoing_task(1).unwrap();
    assert!(task.has_started());
    assert_eq!(1, task.get_start_time());
    assert_eq!(1, task.get_done_steps());
    assert_eq!(1, task.get_rest_time());
    world.tick();
    world.tick();
    assert_eq!(Some(true), world.wusel_has_tasklist_empty(1));
}

#[test]
fn proceed_moves_the_actor() {
    let mut world = two_neighbours();
    world.wusel_assign_to_task(0, TaskBuilder::move_to(Position { x: 1, y: 3, z: 0 }));
    let task = world.wusel_peek_ongoing_task(0).unwrap().clone();
    wusel::life::world::task_manager::proceed(&mut world, task);
    assert_eq!(Some(Position { x: 1, y: 1, z: 0 }), world.wusel_get_position(0));
    assert_eq!(Some(Position { x: 2, y: 0, z: 0 }), world.wusel_get_position(1));
    assert!(world.wusel_peek_ongoing_task(0).unwrap().has_started());
}

#[test]
fn objects_are_placed_and_found() {
    let mut world = World::new(6, 4);
    let bread = world.food_new("Bread", 3);
    assert_eq!(0, bread);
    assert_eq!(None, world.object_get_position(bread));
    world.object_set_position(bread, Position { x: 2, y: 3, z: 0 });
    assert_eq!(Some(Position { x: 2, y: 3, z: 0 }), world.object_get_position(bread));
    assert_eq!(vec![Position { x: 2, y: 3, z: 0 }], world.positions_for_objects());
    assert_eq!(1, world.positions_for_all_placetakers()[2 + 6 * 3].len());
    let copy = world.object_duplicate(0);
    assert_eq!(Some(1), copy);
    assert_eq!(None, world.object_get_position(1));
    world.object_set_position(1, Position { x: 5, y: 0, z: 0 });
    assert_eq!(Some(Position { x: 5, y: 0, z: 0 }), world.object_get_position(1));
    assert_eq!(Some(Position { x: 2, y: 3, z: 0 }), world.object_get_position(bread));
    assert_eq!(1, world.positions_for_all_placetakers()[5].len());
    assert_eq!(None, world.object_duplicate(5));
    assert_eq!(None, world.object_get_position(2));
}

#[test]
fn wusel_positions_and_grid() {
    let mut world = two_neighbours();
    assert_eq!(Some(Position { x: 2, y: 0, z: 0 }), world.wusel_get_position(1));
    assert_eq!(None, world.wusel_get_position(2));
    world.recalculate_positions_for_all_placetakers();
    let grid = world.positions_for_all_placetakers();
    assert_eq!(1, grid[1].len());
    assert_eq!(1, grid[2].len());
}

#[test]
fn wusel_attributes_are_kept() {
    let mut world = two_neighbours();
    assert_eq!(Some("A".to_string()), world.wusel_get_name(0));
    world.wusel_set_name(0, "Alpha".to_string());
    assert_eq!(Some("Alpha".to_string()), world.wusel_get_name(0));
    assert_eq!(Some(WuselGender::Male), world.wusel_get_gender(1));
    world.wusel_set_ability(1, Ability::COMMUNICATION, 4);
    world.wusel_improve(1, Ability::COMMUNICATION);
    assert_eq!(Some(5), world.wusel_get_ability(1, Ability::COMMUNICATION));
    world.wusel_set_pregnancy(0, Some(1), Some(3));
    assert_eq!(Some(true), world.wusel_is_pregnant(0));
    assert_eq!(Some(1), world.wusel_get_other_parent(0));
    assert_eq!(Some(3), world.wusel_get_remaining_pregnancy_days(0));
    world.wusel_set_life_state(1, Life::GHOST);
    assert_eq!(Some(false), world.wusel_is_alive(1));
    assert_eq!(Some(0), world.wusel_get_lived_days(0));
}

#[test]
fn a_day_makes_wusels_older() {
    let mut world = two_neighbours();
    world.wusel_set_ability(0, Ability::COOKING, 2);
    for _ in 0..World::TICKS_PER_DAY {
        world.tick();
    }
    assert_eq!(Some(1), world.wusel_get_lived_days(0));
    assert_eq!(Some(1), world.wusel_get_ability(0, Ability::COOKING));
}

#[test]
fn relation_show_and_update() {
    let mut relation = Relation::new();
    assert_eq!("'Strangers' \u{2639}0 \u{2661}0", relation.show());
    relation.update(RelationType::Friendship, -12);
    relation.update(RelationType::Romance, 3);
    assert_eq!("'Strangers' \u{2639}-12 \u{2661}3", relation.show());
    relation.update(RelationType::Friendship, 12);
    assert_eq!("'Strangers' \u{2639}0 \u{2661}3", relation.show());
    assert_eq!('\u{2661}', RelationType::from_romantically(true).to_char());
    assert_eq!("'Strangers' \u{2639}0 \u{2661}0", Relation::default().show());
    assert_eq!("[Bob: 'Strangers' \u{2639}0 \u{2661}0]", show_relation_entry("Bob", &Relation::new()));
}

#[test]
fn task_builder_presets() {
    let builder = TaskBuilder::use_object(12, 3);
    assert_eq!("Use[3] Object[12]", builder.get_name());
    assert_eq!(1, builder.get_duration());
    let wusel = Wusel::new(4, "W".to_string(), WuselGender::Undefined);
    let task = TaskBuilder::meet_with(2, true, true).set_duration(9).assign(17, &wusel);
    assert_eq!(4, task.get_active_actor_id());
    assert_eq!(17, task.get_start_time());
    assert_eq!(9, task.get_duration());
    assert_eq!(TaskTag::MeetWith(2, true, true), task.get_passive_part());
    assert_eq!("Meeting", task.get_name());
}

#[test]
fn wusel_tasks_prioritized() {
    let mut wusel = Wusel::new(0, "W".to_string(), WuselGender::Female);
    wusel.assign_to_task(0, TaskBuilder::new("a".to_string()));
    wusel.assign_to_task(0, TaskBuilder::be_met_from(3));
    wusel.assign_to_task(0, TaskBuilder::new("c".to_string()));
    assert!(wusel.has_task_with(&TaskTag::BeMetFrom(3)));
    assert!(!wusel.has_task_with(&TaskTag::BeMetFrom(4)));
    assert!(wusel.prioritize_task(1));
    assert_eq!("Being Met", wusel.peek_ongoing_task().unwrap().get_name());
    assert!(!wusel.prioritize_task(3));
    assert_eq!(3, wusel.get_tasklist_len());
}

#[test]
fn area_neighbours_on_border() {
    let area = Area::new(Position::new(0, 0, 0), 4, 4, 1);
    let corner = area.get_all_neighbours_xy(Position::new(0, 0, 0));
    assert_eq!(
        vec![Position::new(1, 0, 0), Position::new(0, 1, 0), Position::new(1, 1, 0)],
        corner
    );
    assert_eq!(8, area.get_all_neighbours_xy(Position::new(2, 2, 0)).len());
    let small = Area::new(Position::new(0, 0, 0), 3, 3, 1);
    assert_eq!(
        vec![Position::new(1, 1, 0), Position::new(2, 1, 0), Position::new(1, 2, 0)],
        small.get_all_neighbours_xy(Position::new(2, 2, 0))
    );
    for neighbour in small.get_all_neighbours_xy(Position::new(2, 0, 0)) {
        assert!(small.contains_position(&neighbour));
    }
    assert!(area.contains_position(&Position::new(3, 3, 0)));
    assert!(!area.contains_position(&Position::new(4, 3, 0)));
    assert_eq!(25, Position::new(0, 0, 0).distance_squared_to(&Position::new(3, 4, 9)));
    assert_eq!(Some(Position::new(1, 2, 0)), area.position_from_index(9));
    assert_eq!(None, area.position_from_index(16));
}

#[test]
fn object_attributes_read_back() {
    let object = Object::new("Desk".to_string(), ObjectType::Furniture("Desk"), true, false, true, 0, 5);
    assert!(object.is_blocking());
    assert!(!object.is_stackable());
    assert!(object.is_portable());
    assert_eq!(5, Object::to_object_attributes(true, false, true));
    assert!(ObjectType::Food("Bread").same_as(&ObjectType::Food("Bread")));
    assert!(!ObjectType::Food("Bread").same_as(&ObjectType::Food("Bun")));
}

#[test]
fn names_have_the_asked_length() {
    for size in 1usize..60 {
        let name = util::name_gen(size);
        assert_eq!(size, name.chars().count());
        assert!(name.chars().next().unwrap().is_ascii_uppercase());
        let other = more_strings::name_gen(size);
        assert_eq!(size, other.len());
        assert!(other.chars().skip(1).all(|c| c.is_ascii_lowercase()));
    }
    assert_eq!(1, util::name_gen(0).len());
    assert_eq!(1, more_strings::name_gen(0).len());
}

#[test]
fn simulation_tick_ages_and_empties() {
    let mut young = SaveWusel::new(WuselId::from(3));
    young.set_digestion(0);
    young.set_age(u64::MAX);
    let save = SaveWorld::from(7, vec![young]);
    let done = tick(&save).unwrap();
    assert_eq!(8, done.time());
    let wusel = done.wusel_by_id(WuselId::from(3)).unwrap();
    assert_eq!(u64::MAX, wusel.age());
    assert_eq!(9, wusel.nourishment());
    assert_eq!(9, wusel.wakefulness());
    assert_eq!(0, wusel.digestion());
    assert_eq!(9, wusel.tidiness());
    assert_eq!(None, done.wusel_by_id(WuselId::from(4)));
    assert_eq!(1, done.wusels_iter().count());
    assert_eq!(0, done.with_time(3).wusels_iter().count());
    assert_eq!(SavePosition::from(0, 0, 0), wusel.position());
}

#[test]
fn saves_and_renderers() {
    let save = new_save();
    assert_eq!(0, save.time());
    assert_eq!(1, save.wusels_iter().count());
    assert!(store_save(save.clone()).is_ok());
    assert!(mute_renderer(&save, 0).is_ok());
    assert_eq!(Renderer::Log, get_renderer(Config::new(1, 10, 0)));
    assert_eq!(Renderer::Mute, get_renderer(Config::new(1, 10, 3)));
    assert_eq!(SaveWorld::new(), SaveWorld::from(0, vec![]));
}

#[test]
fn world2_copies() {
    let world = World2::new(5, 2, 1, 1);
    assert_eq!(0, world.clock());
    assert!(world.tasks().is_empty());
    assert!(world.relations().is_empty());
    assert!(world.items().is_empty());
    assert!(world.environment().is_empty());
    assert_eq!(2, World2::new_with_random_id(2, 3, 4).area().width());
}

#[test]
fn colours_and_screen_positions() {
    assert_eq!(Rgb(0xa0, 0x4c, 0x1f), hash_color_to_rgb(0xa04c1f));
    assert_eq!(Rgb(0, 102, 255), hash_color_to_rgb(0x0066ff));
    assert_eq!(Rgb(0xff, 0xff, 0xff), hash_color_to_rgb(0xffffff));
    assert_eq!(Rgb(0, 5, 90), darken_rgb(Rgb(10, 15, 100), 10));
    let start = ScreenPos::from((1, 1));
    assert_eq!(ScreenPos { x: 0, y: 1 }, start.left_by(4));
    assert_eq!(ScreenPos { x: 2, y: 1 }, start.right());
    assert_eq!(ScreenPos { x: 1, y: u16::MAX }, start.down_by(u16::MAX));
    assert_eq!(ScreenPos { x: 1, y: 0 }, start.up());
    let pos = Pos::from((3, 4));
    assert_eq!(Pos { x: 5, y: 4 }, pos.plus_offset((2, 0)));
    assert_eq!(Pos { x: 0, y: 1 }, pos.minus(Pos { x: 7, y: 3 }));
    assert_eq!((3, 4), pos.to_tuple());
}

#[test]
fn field_is_drawn_below_the_corner() {
    let mut world = two_neighbours();
    world.food_new("Bread", 1);
    world.object_set_position(0, Position { x: 0, y: 1, z: 0 });
    world.recalculate_positions_for_all_placetakers();
    let spots = render_field(10, world.positions_for_all_placetakers());
    assert_eq!(100, spots.len());
    assert_eq!((2, 2, ' '), (spots[0].0, spots[0].1, spots[0].2 .0));
    assert_eq!((3, 2, 'O'), (spots[1].0, spots[1].1, spots[1].2 .0));
    assert_eq!((2, 3, '\u{f3}'), (spots[10].0, spots[10].1, spots[10].2 .0));
    assert_eq!(Some(Rgb(0, 0, 0)), spots[1].2 .1);
}

#[test]
fn area_positions_row_by_row() {
    let mut area = Area::new(Position::new(0, 0, 0), 2, 2, 1);
    assert_eq!(Some(Position::new(0, 0, 0)), area.next());
    assert_eq!(Some(Position::new(1, 0, 0)), area.next());
    assert_eq!(Some(Position::new(0, 1, 0)), area.next());
    assert_eq!(Some(Position::new(1, 1, 0)), area.next());
    assert_eq!(None, area.next());
}

#[test]
fn progress_bar_cells_show_percentage() {
    let cells = progres_bar_cells(8, 3, 42, true, None, true);
    let text: String = cells.iter().map(|c| c.0).collect();
    assert_eq!("##42%---", text);
    assert_eq!(Some(Rgb(0, 0, 0)), cells[2].1);
    assert_eq!(None, cells[1].1);
    let coloured = progres_bar_cells(4, 1, 100, true, Some((Rgb(0, 255, 0), Rgb(255, 0, 0))), true);
    assert_eq!(Some(Rgb(0, 255, 0)), coloured[0].1);
    assert_eq!('1', coloured[1].0);
    assert_eq!(Some(Rgb(205, 0, 0)), coloured[1].1);
    let vertical = progres_bar_cells(4, 1, 0, false, None, false);
    let text: String = vertical.iter().map(|c| c.0).collect();
    assert_eq!("::##", text);
}
