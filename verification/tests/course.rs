use minigolf::course::{GolfMap, Matcher};
use minigolf::grid::Point;
use minigolf::object::GameObject;

fn wall(ax: i32, ay: i32, bx: i32, by: i32) -> GameObject {
    GameObject::Wall { a: Point::new(ax, ay), b: Point::new(bx, by) }
}

fn zone(ax: i32, ay: i32, bx: i32, by: i32, height: i32) -> GameObject {
    GameObject::Height { a: Point::new(ax, ay), b: Point::new(bx, by), height }
}

#[test]
fn default_course_holds_one_start_at_the_origin() {
    let map = GolfMap::default();
    assert_eq!(map.objects(), &vec![GameObject::Start(Point::new(0, 0))]);
    assert_eq!(map.get_point(&Point::new(0, 0)), Some(&GameObject::Start(Point::new(0, 0))));
    assert_eq!(map.get_point(&Point::new(1, 0)), None);
}

#[test]
fn new_course_is_empty() {
    let map = GolfMap::new();
    assert!(map.objects().is_empty());
    assert_eq!(map.get_point(&Point::new(0, 0)), None);
    assert_eq!(map.start_cell(), None);
}

#[test]
fn default_object_is_a_start_at_the_origin() {
    assert_eq!(GameObject::default(), GameObject::Start(Point::new(0, 0)));
}

#[test]
fn add_object_appends_in_order() {
    let mut map = GolfMap::new();
    map.add_object(GameObject::Hole(Point::new(5, 5)));
    map.add_object(wall(1, 1, 2, 2));
    assert_eq!(map.objects(), &vec![GameObject::Hole(Point::new(5, 5)), wall(1, 1, 2, 2)]);
}

#[test]
fn wall_occupies_the_whole_block_between_its_corners() {
    let mut map = GolfMap::new();
    let w = wall(2, 2, 4, 4);
    map.add_object(w);
    for x in 0..8 {
        for y in 0..8 {
            let inside = (2..=4).contains(&x) && (2..=4).contains(&y);
            let found = map.get_point(&Point::new(x, y));
            if inside {
                assert_eq!(found, Some(&w));
            } else {
                assert_eq!(found, None);
            }
        }
    }
}

#[test]
fn corners_may_come_in_any_order() {
    for w in [wall(4, 2, 2, 4), wall(4, 4, 2, 2), wall(2, 4, 4, 2)] {
        let mut map = GolfMap::new();
        map.add_object(w);
        assert_eq!(map.get_point(&Point::new(3, 3)), Some(&w));
        assert_eq!(map.get_point(&Point::new(2, 2)), Some(&w));
        assert_eq!(map.get_point(&Point::new(4, 4)), Some(&w));
        assert_eq!(map.get_point(&Point::new(5, 3)), None);
        assert_eq!(map.get_point(&Point::new(3, 1)), None);
    }
}

#[test]
fn wall_with_equal_corners_occupies_one_cell() {
    let mut map = GolfMap::new();
    let w = wall(7, 7, 7, 7);
    map.add_object(w);
    assert_eq!(map.get_point(&Point::new(7, 7)), Some(&w));
    assert_eq!(map.get_point(&Point::new(7, 8)), None);
    assert_eq!(map.get_point(&Point::new(6, 7)), None);
}

#[test]
fn height_zone_occupies_its_block() {
    let mut map = GolfMap::new();
    let z = zone(1, 1, 2, 3, -5);
    map.add_object(z);
    assert_eq!(map.get_point(&Point::new(1, 1)), Some(&z));
    assert_eq!(map.get_point(&Point::new(2, 3)), Some(&z));
    assert_eq!(map.get_point(&Point::new(3, 3)), None);
}

#[test]
fn later_object_wins_a_shared_cell() {
    let mut map = GolfMap::new();
    let first = wall(0, 0, 3, 3);
    let second = GameObject::Hole(Point::new(1, 1));
    let third = wall(1, 1, 1, 2);
    map.add_object(first);
    map.add_object(second);
    assert_eq!(map.get_point(&Point::new(1, 1)), Some(&second));
    assert_eq!(map.get_point(&Point::new(1, 2)), Some(&first));
    map.add_object(third);
    assert_eq!(map.get_point(&Point::new(1, 1)), Some(&third));
    assert_eq!(map.get_point(&Point::new(1, 2)), Some(&third));
    assert_eq!(map.get_point(&Point::new(0, 0)), Some(&first));
}

#[test]
fn lookup_after_rebuild_gives_the_last_covering_object() {
    let mut map = GolfMap::new();
    let objects = vec![
        wall(0, 0, 5, 5),
        zone(2, 2, 6, 6, 3),
        GameObject::Start(Point::new(2, 2)),
        wall(4, 0, 4, 9),
        GameObject::Hole(Point::new(9, 9)),
    ];
    for o in &objects {
        map.add_object(*o);
    }
    map.update_hashmap();
    assert_eq!(map.objects(), &objects);
    for x in -1..11 {
        for y in -1..11 {
            let p = Point::new(x, y);
            let expected = objects.iter().rev().find(|o| match o {
                GameObject::Hole(q) | GameObject::Start(q) => *q == p,
                GameObject::Wall { a, b } | GameObject::Height { a, b, .. } => {
                    a.x.min(b.x) <= x && x <= a.x.max(b.x) && a.y.min(b.y) <= y && y <= a.y.max(b.y)
                }
            });
            assert_eq!(map.get_point(&p), expected);
        }
    }
}

#[test]
fn placeholder_sits_on_the_pending_cell() {
    let mut map = GolfMap::new();
    let w = wall(-1, -1, -1, -1);
    map.add_object(w);
    assert_eq!(map.get_point(&Point::new(-1, -1)), Some(&w));
    assert_eq!(map.get_point(&Point::new(0, 0)), None);
}

#[test]
fn removing_starts_keeps_the_rest_in_order() {
    let mut map = GolfMap::default();
    map.add_object(GameObject::Hole(Point::new(1, 1)));
    map.add_object(GameObject::Start(Point::new(2, 2)));
    map.add_object(wall(3, 3, 4, 4));
    map.remove_where(Matcher::Starts);
    assert_eq!(map.objects(), &vec![GameObject::Hole(Point::new(1, 1)), wall(3, 3, 4, 4)]);
    assert_eq!(map.get_point(&Point::new(0, 0)), None);
    assert_eq!(map.get_point(&Point::new(2, 2)), None);
    assert_eq!(map.get_point(&Point::new(3, 4)), Some(&wall(3, 3, 4, 4)));
}

#[test]
fn removing_holes_keeps_the_rest() {
    let mut map = GolfMap::default();
    map.add_object(GameObject::Hole(Point::new(1, 1)));
    map.add_object(GameObject::Hole(Point::new(5, 1)));
    map.remove_where(Matcher::Holes);
    assert_eq!(map.objects(), &vec![GameObject::Start(Point::new(0, 0))]);
    assert_eq!(map.get_point(&Point::new(1, 1)), None);
}

#[test]
fn removing_at_a_point_takes_objects_defined_by_it() {
    let mut map = GolfMap::new();
    map.add_object(wall(1, 1, 3, 3));
    map.add_object(zone(3, 3, 5, 5, 2));
    map.add_object(GameObject::Hole(Point::new(3, 3)));
    map.add_object(GameObject::Start(Point::new(2, 2)));
    map.remove_where(Matcher::Touching(Point::new(3, 3)));
    assert_eq!(map.objects(), &vec![GameObject::Start(Point::new(2, 2))]);
}

#[test]
fn removing_at_an_inner_cell_of_a_wall_leaves_the_wall() {
    let mut map = GolfMap::new();
    map.add_object(wall(1, 1, 3, 3));
    map.remove_where(Matcher::Touching(Point::new(2, 2)));
    assert_eq!(map.objects(), &vec![wall(1, 1, 3, 3)]);
    map.remove_where(Matcher::Touching(Point::new(1, 1)));
    assert!(map.objects().is_empty());
    assert_eq!(map.get_point(&Point::new(2, 2)), None);
}

#[test]
fn matcher_tells_which_objects_it_selects() {
    let s = GameObject::Start(Point::new(1, 1));
    let h = GameObject::Hole(Point::new(1, 1));
    let w = wall(1, 1, 2, 2);
    assert!(Matcher::Starts.matches(&s));
    assert!(!Matcher::Starts.matches(&h));
    assert!(Matcher::Holes.matches(&h));
    assert!(!Matcher::Holes.matches(&w));
    assert!(Matcher::Touching(Point::new(2, 2)).matches(&w));
    assert!(!Matcher::Touching(Point::new(1, 2)).matches(&w));
}

#[test]
fn ensure_start_adds_one_to_a_course_without_start() {
    let mut map = GolfMap::new();
    map.add_object(GameObject::Hole(Point::new(4, 4)));
    map.ensure_start_exists();
    assert_eq!(
        map.objects(),
        &vec![GameObject::Hole(Point::new(4, 4)), GameObject::Start(Point::new(0, 0))]
    );
    assert_eq!(map.get_point(&Point::new(0, 0)), Some(&GameObject::Start(Point::new(0, 0))));
}

#[test]
fn ensure_start_twice_adds_no_second_start() {
    let mut map = GolfMap::new();
    map.ensure_start_exists();
    let once = map.objects().clone();
    map.ensure_start_exists();
    assert_eq!(map.objects(), &once);
    assert_eq!(once, vec![GameObject::Start(Point::new(0, 0))]);
}

#[test]
fn ensure_start_leaves_a_course_with_start_alone() {
    let mut map = GolfMap::new();
    map.add_object(GameObject::Start(Point::new(7, 3)));
    map.add_object(wall(1, 1, 2, 2));
    map.ensure_start_exists();
    assert_eq!(map.objects(), &vec![GameObject::Start(Point::new(7, 3)), wall(1, 1, 2, 2)]);
}

#[test]
fn start_cell_is_the_start_added_last() {
    let mut map = GolfMap::default();
    assert_eq!(map.start_cell(), Some(Point::new(0, 0)));
    map.add_object(GameObject::Start(Point::new(3, 4)));
    map.add_object(GameObject::Hole(Point::new(9, 9)));
    assert_eq!(map.start_cell(), Some(Point::new(3, 4)));
}

#[test]
fn symbols_of_the_kinds() {
    assert_eq!(GameObject::Hole(Point::new(0, 0)).symbol(), "H");
    assert_eq!(wall(0, 0, 1, 1).symbol(), "W");
    assert_eq!(GameObject::Start(Point::new(0, 0)).symbol(), "S");
    assert_eq!(zone(0, 0, 1, 1, 0).symbol(), "H");
}

#[test]
fn point_is_the_cell_of_one_cell_objects_only() {
    assert_eq!(GameObject::Hole(Point::new(1, 2)).point(), Some(Point::new(1, 2)));
    assert_eq!(GameObject::Start(Point::new(3, 4)).point(), Some(Point::new(3, 4)));
    assert_eq!(wall(0, 0, 1, 1).point(), None);
    assert_eq!(zone(0, 0, 1, 1, 0).point(), None);
}

#[test]
fn get_points_gives_cell_or_corners() {
    assert_eq!(GameObject::Hole(Point::new(1, 2)).get_points(), vec![Point::new(1, 2)]);
    assert_eq!(GameObject::Start(Point::new(3, 4)).get_points(), vec![Point::new(3, 4)]);
    assert_eq!(wall(0, 1, 2, 3).get_points(), vec![Point::new(0, 1), Point::new(2, 3)]);
    assert_eq!(zone(4, 5, 6, 7, 9).get_points(), vec![Point::new(4, 5), Point::new(6, 7)]);
}

#[test]
fn kind_tests_and_placeholder() {
    assert!(wall(0, 0, 1, 1).is_wall());
    assert!(!zone(0, 0, 1, 1, 0).is_wall());
    assert!(GameObject::Start(Point::new(0, 0)).is_start());
    assert!(GameObject::Hole(Point::new(0, 0)).is_hole());
    assert!(wall(-1, -1, -1, -1).is_placeholder());
    assert!(!wall(-1, -1, 0, 0).is_placeholder());
    assert!(!zone(-1, -1, -1, -1, 0).is_placeholder());
    assert!(wall(0, 1, 2, 3).has_point(Point::new(2, 3)));
    assert!(!wall(0, 1, 2, 3).has_point(Point::new(1, 1)));
}
