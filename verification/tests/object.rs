use roguelike::draw::{Color, DrawCommand};
use roguelike::grid::Grid;
use roguelike::object::Object;
use roguelike::rect::Rect;

const WHITE: Color = Color { r: 255, g: 255, b: 255 };

fn open_grid() -> Grid {
    let mut map = Grid::new(20, 10).unwrap();
    map.create_room(Rect::new(-1, -1, 21, 11));
    map
}

#[test]
fn new_object_holds_its_fields() {
    let o = Object::new(5, 6, '@', WHITE);
    assert_eq!(o.x, 5);
    assert_eq!(o.y, 6);
    assert_eq!(o.glyph, '@');
    assert_eq!(o.color, Color { r: 255, g: 255, b: 255 });
}

#[test]
fn object_is_drawn_as_its_glyph() {
    let o = Object::new(5, 6, '@', WHITE);
    assert_eq!(o.draw(), DrawCommand::Glyph { x: 5, y: 6, glyph: '@', color: WHITE });
    let o = Object::new(-1, 0, 'o', Color { r: 1, g: 2, b: 3 });
    assert_eq!(
        o.draw(),
        DrawCommand::Glyph { x: -1, y: 0, glyph: 'o', color: Color { r: 1, g: 2, b: 3 } }
    );
}

#[test]
fn move_into_wall_is_dropped() {
    let mut map = Grid::new(20, 10).unwrap();
    map.create_h_tunnel(5, 5, 5);
    let mut o = Object::new(5, 5, '@', WHITE);
    o.move_by(1, 0, &map);
    assert_eq!((o.x, o.y), (5, 5));
}

#[test]
fn move_off_the_grid_is_dropped() {
    let map = open_grid();
    let mut o = Object::new(0, 0, '@', WHITE);
    o.move_by(-1, 0, &map);
    assert_eq!((o.x, o.y), (0, 0));
    o.move_by(0, -1, &map);
    assert_eq!((o.x, o.y), (0, 0));
    let mut o = Object::new(19, 9, '@', WHITE);
    o.move_by(1, 0, &map);
    assert_eq!((o.x, o.y), (19, 9));
    o.move_by(0, 1, &map);
    assert_eq!((o.x, o.y), (19, 9));
}

#[test]
fn move_off_the_grid_on_a_solid_grid_is_dropped() {
    let map = Grid::new(20, 10).unwrap();
    let mut o = Object::new(0, 0, '@', WHITE);
    o.move_by(-1, 0, &map);
    assert_eq!((o.x, o.y), (0, 0));
}

#[test]
fn move_onto_floor_is_made() {
    let map = open_grid();
    let mut o = Object::new(5, 5, 'x', WHITE);
    o.move_by(1, 0, &map);
    assert_eq!((o.x, o.y), (6, 5));
    o.move_by(0, -1, &map);
    assert_eq!((o.x, o.y), (6, 4));
    o.move_by(-3, 2, &map);
    assert_eq!((o.x, o.y), (3, 6));
    o.move_by(0, 0, &map);
    assert_eq!((o.x, o.y), (3, 6));
    assert_eq!(o.glyph, 'x');
    assert_eq!(o.color, WHITE);
}

#[test]
fn move_that_overflows_is_dropped() {
    let map = open_grid();
    let mut o = Object::new(5, 5, '@', WHITE);
    o.move_by(i32::MAX, 0, &map);
    assert_eq!((o.x, o.y), (5, 5));
    o.move_by(0, i32::MIN, &map);
    assert_eq!((o.x, o.y), (5, 5));
    let mut far = Object::new(i32::MAX, i32::MIN, '@', WHITE);
    far.move_by(1, -1, &map);
    assert_eq!((far.x, far.y), (i32::MAX, i32::MIN));
}

#[test]
fn object_off_the_grid_can_step_onto_it() {
    let map = open_grid();
    let mut o = Object::new(-1, 3, '@', WHITE);
    o.move_by(1, 0, &map);
    assert_eq!((o.x, o.y), (0, 3));
}

#[test]
fn walk_never_leaves_the_floor() {
    let mut map = Grid::new(20, 10).unwrap();
    map.create_room(Rect::new(2, 2, 6, 4));
    map.create_h_tunnel(7, 15, 4);
    let mut o = Object::new(5, 4, '@', WHITE);
    let deltas = [(1, 0), (0, 1), (0, 1), (0, 1), (-1, 0), (-1, 0), (-1, 0), (-1, 0), (0, -1),
        (0, -1), (0, -1), (0, -1), (1, 0), (1, 0), (1, 0), (1, 0), (1, 0), (1, 0), (0, 1), (1, 0),
        (1, 0), (1, 0), (1, 0), (1, 0), (1, 0), (1, 0), (1, 0), (1, 0), (1, 0), (0, -1), (0, 1),
        (5, 5), (-20, 0), (0, 30), (-1, -1)];
    for (dx, dy) in deltas {
        o.move_by(dx, dy, &map);
        assert!(map.within(o.x, o.y));
        assert!(!map.tile(o.x, o.y).blocked);
    }
    assert_eq!((o.x, o.y), (15, 4));
}
