use crate::draw::{background, background_of, DrawCommand};
use crate::grid::{Grid, GridView};
use crate::object::Object;
use vstd::prelude::*;

verus! {

/// The keys that mean something to the game.
#[derive(Clone, Copy, Debug, PartialEq, Eq, Structural)]
pub enum KeyCode {
    Left,
    Right,
    Up,
    Down,
    Enter,
    Escape,
    Other,
}

/// A key press: the key, and whether Alt was held.
#[derive(Clone, Copy, Debug, PartialEq, Eq, Structural)]
pub struct Key {
    pub code: KeyCode,
    pub alt: bool,
}

/// What a player can ask for.
#[derive(Clone, Copy, Debug, PartialEq, Eq, Structural)]
pub enum Action {
    MoveLeft,
    MoveRight,
    MoveUp,
    MoveDown,
    ToggleFullscreen,
    Quit,
}

/// What is left to do for the one who runs the game after an action was
/// handled.
#[derive(Clone, Copy, Debug, PartialEq, Eq, Structural)]
pub enum Outcome {
    /// Go on with the next frame.
    Continue,
    /// Switch between the window and the full screen, then go on.
    ToggleFullscreen,
    /// End the session.
    Exit,
}

impl Key {
    /// The action that a key press asks for: the arrows move, Enter with Alt
    /// toggles the full screen, Escape quits, and nothing else means anything.
    pub open spec fn spec_action(&self) -> Option<Action> {
        match self.code {
            KeyCode::Left => Some(Action::MoveLeft),
            KeyCode::Right => Some(Action::MoveRight),
            KeyCode::Up => Some(Action::MoveUp),
            KeyCode::Down => Some(Action::MoveDown),
            KeyCode::Enter => if self.alt {
                Some(Action::ToggleFullscreen)
            } else {
                None
            },
            KeyCode::Escape => Some(Action::Quit),
            KeyCode::Other => None,
        }
    }

    /// The action that the key press asks for, if any.
    #[verifier::when_used_as_spec(spec_action)]
    pub fn action(&self) -> (action: Option<Action>)
        ensures
            action == self.spec_action(),
    {
        match self.code {
            KeyCode::Left => Some(Action::MoveLeft),
            KeyCode::Right => Some(Action::MoveRight),
            KeyCode::Up => Some(Action::MoveUp),
            KeyCode::Down => Some(Action::MoveDown),
            KeyCode::Enter => if self.alt {
                Some(Action::ToggleFullscreen)
            } else {
                None
            },
            KeyCode::Escape => Some(Action::Quit),
            KeyCode::Other => None,
        }
    }
}

impl Action {
    /// By how much the action moves the player, if it is a move.
    pub open spec fn delta(self) -> Option<(int, int)> {
        match self {
            Action::MoveLeft => Some((-1, 0)),
            Action::MoveRight => Some((1, 0)),
            Action::MoveUp => Some((0, -1)),
            Action::MoveDown => Some((0, 1)),
            _ => None,
        }
    }

    /// What the action leaves to do.
    pub open spec fn outcome(self) -> Outcome {
        match self {
            Action::ToggleFullscreen => Outcome::ToggleFullscreen,
            Action::Quit => Outcome::Exit,
            _ => Outcome::Continue,
        }
    }
}

/// The mathematical content of a game: the grid and the objects on it, the
/// player first.
pub struct GameView {
    pub grid: GridView,
    pub objects: Seq<Object>,
}

impl GameView {
    /// The game after object `index` tried to move by `(dx, dy)`.
    pub open spec fn move_object(self, index: int, dx: int, dy: int) -> GameView {
        GameView {
            objects: self.objects.update(index, self.objects[index].after_move(self.grid, dx, dy)),
            ..self
        }
    }

    /// The game after the player asked for `action`.
    pub open spec fn apply(self, action: Action) -> GameView {
        match action.delta() {
            Some(delta) => self.move_object(0, delta.0, delta.1),
            None => self,
        }
    }

    /// The backgrounds of all cells, in row-major order.
    pub open spec fn backgrounds(self) -> Seq<DrawCommand> {
        Seq::new(
            self.grid.tiles.len(),
            |i: int|
                DrawCommand::Background {
                    x: (i % self.grid.width) as i32,
                    y: (i / self.grid.width) as i32,
                    color: background_of(self.grid.tiles[i]),
                },
        )
    }

    /// The glyphs of all objects, in their order.
    pub open spec fn glyphs(self) -> Seq<DrawCommand> {
        Seq::new(
            self.objects.len(),
            |k: int| self.objects[k].glyph_command(),
        )
    }

    /// A frame: the backgrounds of all cells, then the glyphs of all objects.
    pub open spec fn frame(self) -> Seq<DrawCommand> {
        self.backgrounds() + self.glyphs()
    }
}

/// One session: the grid and the objects on it. The first object is the
/// player.
#[derive(Debug)]
pub struct Game {
    map: Grid,
    objects: Vec<Object>,
}

impl View for Game {
    type V = GameView;

    closed spec fn view(&self) -> GameView {
        GameView { grid: self.map@, objects: self.objects@ }
    }
}

impl Game {
    /// The grid is sound, its dimensions fit the signed coordinates, and
    /// there is a player.
    pub open spec fn wf(&self) -> bool {
        &&& self@.grid.wf()
        &&& self@.grid.width <= i32::MAX
        &&& self@.grid.height <= i32::MAX
        &&& self@.objects.len() > 0
    }

    /// A game on `map` with `player` as its only object.
    pub fn new(map: Grid, player: Object) -> (game: Game)
        requires
            map.wf(),
        ensures
            game.wf(),
            game@.grid == map@,
            game@.objects == seq![player],
    {
        let mut objects = Vec::new();
        objects.push(player);
        let game = Game { map, objects };
        assert(game@.objects =~= seq![player]);
        game
    }

    /// The grid.
    pub fn map(&self) -> (map: &Grid)
        ensures
            map@ == self@.grid,
            self.wf() ==> map.wf(),
    {
        &self.map
    }

    /// The objects, the player first.
    pub fn objects(&self) -> (objects: &Vec<Object>)
        ensures
            objects@ == self@.objects,
    {
        &self.objects
    }

    /// Adds an object after the others.
    pub fn add_object(&mut self, object: Object)
        ensures
            final(self)@.grid == old(self)@.grid,
            final(self)@.objects == old(self)@.objects.push(object),
            old(self).wf() ==> final(self).wf(),
    {
        self.objects.push(object);
    }

    /// Lets object `index` try to move by `(dx, dy)`: it moves if the cell it
    /// would reach is a cell of the grid that does not stop movement, and
    /// stays otherwise.
    pub fn move_object(&mut self, index: usize, dx: i32, dy: i32)
        requires
            old(self).wf(),
            index < old(self)@.objects.len(),
        ensures
            final(self).wf(),
            final(self)@ == old(self)@.move_object(index as int, dx as int, dy as int),
    {
        let mut object = self.objects[index];
        object.move_by(dx, dy, &self.map);
        self.objects.set(index, object);
    }

    /// Carries out what the player asked for. A move is tried on the first
    /// object; nothing else changes the game.
    pub fn apply(&mut self, action: Action) -> (outcome: Outcome)
        requires
            old(self).wf(),
        ensures
            final(self).wf(),
            final(self)@ == old(self)@.apply(action),
            outcome == action.outcome(),
    {
        match action {
            Action::MoveLeft => {
                self.move_object(0, -1, 0);
                Outcome::Continue
            },
            Action::MoveRight => {
                self.move_object(0, 1, 0);
                Outcome::Continue
            },
            Action::MoveUp => {
                self.move_object(0, 0, -1);
                Outcome::Continue
            },
            Action::MoveDown => {
                self.move_object(0, 0, 1);
                Outcome::Continue
            },
            Action::ToggleFullscreen => Outcome::ToggleFullscreen,
            Action::Quit => Outcome::Exit,
        }
    }

    /// Handles one key press: carries out the action it asks for, and goes
    /// on unchanged where it asks for none.
    pub fn handle_keys(&mut self, key: Key) -> (outcome: Outcome)
        requires
            old(self).wf(),
        ensures
            final(self).wf(),
            final(self)@ == (match key.spec_action() {
                Some(action) => old(self)@.apply(action),
                None => old(self)@,
            }),
            outcome == (match key.spec_action() {
                Some(action) => action.outcome(),
                None => Outcome::Continue,
            }),
    {
        match key.action() {
            Some(action) => self.apply(action),
            None => Outcome::Continue,
        }
    }

    /// What to put on the screen for one frame: for every cell its
    /// background, then for every object its glyph.
    pub fn draw(&self) -> (commands: Vec<DrawCommand>)
        requires
            self.wf(),
        ensures
            commands@ == self@.frame(),
    {
        let mut commands: Vec<DrawCommand> = Vec::new();
        let tiles = self.map.tiles();
        let mut i: usize = 0;
        while i < tiles.len()
            invariant
                self.wf(),
                tiles@ == self@.grid.tiles,
                i <= tiles.len(),
                commands@ == self@.backgrounds().take(i as int),
            decreases tiles.len() - i,
        {
            let (x, y) = self.map.get_idx_pos(i);
            let color = background(&tiles[i]);
            commands.push(DrawCommand::Background { x, y, color });
            assert(commands@ =~= self@.backgrounds().take(i + 1));
            i = i + 1;
        }
        assert(commands@ =~= self@.backgrounds());
        let mut k: usize = 0;
        while k < self.objects.len()
            invariant
                k <= self.objects.len(),
                commands@ == self@.backgrounds() + self@.glyphs().take(k as int),
            decreases self.objects.len() - k,
        {
            commands.push(self.objects[k].draw());
            assert(commands@ =~= self@.backgrounds() + self@.glyphs().take(k + 1));
            k = k + 1;
        }
        assert(commands@ =~= self@.frame());
        commands
    }
}

} // verus!
