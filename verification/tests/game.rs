use roguelike::draw::{background, Color, DrawCommand};
use roguelike::game::{Action, Game, Key, KeyCode, Outcome};
use roguelike::grid::Grid;
use roguelike::object::Object;
use roguelike::rect::Rect;
use roguelike::tile::Tile;

const WHITE: Color = Color { r: 255, g: 255, b: 255 };

const DARK_WALL: Color = Color { r: 0, g: 0, b: 100 };

const DARK_GROUND: Color = Color { r: 50, g: 50, b: 150 };

fn game() -> Game {
    let mut map = Grid::new(20, 10).unwrap();
    map.create_room(Rect::new(2, 2, 6, 4));
    Game::new(map, Object::new(5, 4, '@', WHITE))
}

fn key(code: KeyCode) -> Key {
    Key { code, alt: false }
}

fn player(game: &Game) -> (i32, i32) {
    (game.objects()[0].x, game.objects()[0].y)
}

#[test]
fn keys_ask_for_actions() {
    assert_eq!(key(KeyCode::Left).action(), Some(Action::MoveLeft));
    assert_eq!(key(KeyCode::Right).action(), Some(Action::MoveRight));
    assert_eq!(key(KeyCode::Up).action(), Some(Action::MoveUp));
    assert_eq!(key(KeyCode::Down).action(), Some(Action::MoveDown));
    assert_eq!(key(KeyCode::Escape).action(), Some(Action::Quit));
    assert_eq!(key(KeyCode::Enter).action(), None);
    assert_eq!(key(KeyCode::Other).action(), None);
    assert_eq!(Key { code: KeyCode::Enter, alt: true }.action(), Some(Action::ToggleFullscreen));
    assert_eq!(Key { code: KeyCode::Left, alt: true }.action(), Some(Action::MoveLeft));
    assert_eq!(Key { code: KeyCode::Escape, alt: true }.action(), Some(Action::Quit));
    assert_eq!(Key { code: KeyCode::Other, alt: true }.action(), None);
}

#[test]
fn new_game_holds_the_player() {
    let g = game();
    assert_eq!(g.objects(), &vec![Object::new(5, 4, '@', WHITE)]);
    assert_eq!(g.map().width(), 20);
    assert_eq!(g.map().tile(5, 4), Tile::empty());
}

#[test]
fn arrows_move_the_player() {
    let mut g = game();
    assert_eq!(g.handle_keys(key(KeyCode::Left)), Outcome::Continue);
    assert_eq!(player(&g), (4, 4));
    assert_eq!(g.handle_keys(key(KeyCode::Up)), Outcome::Continue);
    assert_eq!(player(&g), (4, 3));
    assert_eq!(g.handle_keys(key(KeyCode::Right)), Outcome::Continue);
    assert_eq!(player(&g), (5, 3));
    assert_eq!(g.handle_keys(key(KeyCode::Down)), Outcome::Continue);
    assert_eq!(player(&g), (5, 4));
}

#[test]
fn walls_stop_the_player() {
    let mut g = game();
    for _ in 0..5 {
        assert_eq!(g.handle_keys(key(KeyCode::Up)), Outcome::Continue);
    }
    assert_eq!(player(&g), (5, 3));
    for _ in 0..9 {
        g.handle_keys(key(KeyCode::Right));
    }
    assert_eq!(player(&g), (7, 3));
}

#[test]
fn other_keys_change_nothing() {
    let mut g = game();
    assert_eq!(g.handle_keys(key(KeyCode::Escape)), Outcome::Exit);
    assert_eq!(g.handle_keys(Key { code: KeyCode::Enter, alt: true }), Outcome::ToggleFullscreen);
    assert_eq!(g.handle_keys(key(KeyCode::Enter)), Outcome::Continue);
    assert_eq!(g.handle_keys(key(KeyCode::Other)), Outcome::Continue);
    assert_eq!(player(&g), (5, 4));
    assert_eq!(g.map(), game().map());
}

#[test]
fn actions_are_applied() {
    let mut g = game();
    assert_eq!(g.apply(Action::MoveRight), Outcome::Continue);
    assert_eq!(player(&g), (6, 4));
    assert_eq!(g.apply(Action::MoveDown), Outcome::Continue);
    assert_eq!(player(&g), (6, 5));
    assert_eq!(g.apply(Action::MoveLeft), Outcome::Continue);
    assert_eq!(player(&g), (5, 5));
    assert_eq!(g.apply(Action::MoveUp), Outcome::Continue);
    assert_eq!(player(&g), (5, 4));
    assert_eq!(g.apply(Action::Quit), Outcome::Exit);
    assert_eq!(g.apply(Action::ToggleFullscreen), Outcome::ToggleFullscreen);
    assert_eq!(player(&g), (5, 4));
}

#[test]
fn only_the_named_object_moves() {
    let mut g = game();
    let npc = Object::new(3, 3, 'o', Color { r: 9, g: 8, b: 7 });
    g.add_object(npc);
    assert_eq!(g.objects().len(), 2);
    g.move_object(1, 1, 1);
    assert_eq!(g.objects()[1], Object::new(4, 4, 'o', Color { r: 9, g: 8, b: 7 }));
    assert_eq!(player(&g), (5, 4));
    g.move_object(1, -4, 0);
    assert_eq!((g.objects()[1].x, g.objects()[1].y), (4, 4));
    g.handle_keys(key(KeyCode::Left));
    assert_eq!(player(&g), (4, 4));
    assert_eq!((g.objects()[1].x, g.objects()[1].y), (4, 4));
}

#[test]
fn background_follows_sight() {
    assert_eq!(background(&Tile::wall()), DARK_WALL);
    assert_eq!(background(&Tile::empty()), DARK_GROUND);
    assert_eq!(background(&Tile { blocked: true, block_sight: false }), DARK_GROUND);
    assert_eq!(background(&Tile { blocked: false, block_sight: true }), DARK_WALL);
}

#[test]
fn frame_paints_cells_then_objects() {
    let mut map = Grid::new(3, 2).unwrap();
    map.create_h_tunnel(1, 2, 1);
    let mut g = Game::new(map, Object::new(1, 1, '@', WHITE));
    g.add_object(Object::new(2, 1, 'o', DARK_WALL));
    let frame = g.draw();
    assert_eq!(
        frame,
        vec![
            DrawCommand::Background { x: 0, y: 0, color: DARK_WALL },
            DrawCommand::Background { x: 1, y: 0, color: DARK_WALL },
            DrawCommand::Background { x: 2, y: 0, color: DARK_WALL },
            DrawCommand::Background { x: 0, y: 1, color: DARK_WALL },
            DrawCommand::Background { x: 1, y: 1, color: DARK_GROUND },
            DrawCommand::Background { x: 2, y: 1, color: DARK_GROUND },
            DrawCommand::Glyph { x: 1, y: 1, glyph: '@', color: WHITE },
            DrawCommand::Glyph { x: 2, y: 1, glyph: 'o', color: DARK_WALL },
        ]
    );
}

#[test]
fn frame_of_a_whole_grid() {
    let g = game();
    let frame = g.draw();
    assert_eq!(frame.len(), 201);
    let ground = frame
        .iter()
        .filter(|c| matches!(c, DrawCommand::Background { color, .. } if *color == DARK_GROUND))
        .count();
    assert_eq!(ground, 15);
    assert_eq!(frame[200], DrawCommand::Glyph { x: 5, y: 4, glyph: '@', color: WHITE });
    assert_eq!(frame[4 * 20 + 5], DrawCommand::Background { x: 5, y: 4, color: DARK_GROUND });
    assert_eq!(frame[19], DrawCommand::Background { x: 19, y: 0, color: DARK_WALL });
}
