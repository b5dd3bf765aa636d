use vstd::prelude::*;
use crate::geometry::{Transform, WindowSize, UNITS_PER_PIXEL, SCALE_ONE};
use crate::confine::{confined, confine_transform};
use crate::movement::{Keys, moved, move_transform, within_limit};

verus! {

/// Number of enemies placed when the scene starts.
pub const NUM_ENEMIES: usize = 4;

/// Scale, in thousandths, at which player and enemy sprites are drawn.
pub const SPRITE_SCALE: u32 = 500;

/// Marks the one entity that the keyboard moves.
#[derive(Clone, Copy, Debug, PartialEq, Eq)]
pub struct Player;

/// Marks a stationary enemy.
#[derive(Clone, Copy, Debug, PartialEq, Eq)]
pub struct Enemy;

/// What an entity of the scene is.
#[derive(Clone, Copy, Debug, PartialEq, Eq)]
pub enum Tag {
    Camera,
    Player(Player),
    Enemy(Enemy),
}

/// One entity: what it is and where it stands.
#[derive(Clone, Copy, Debug, PartialEq, Eq)]
pub struct Entity {
    pub tag: Tag,
    pub transform: Transform,
}

/// All entities of the scene, in the order they were created.
#[derive(Debug)]
pub struct Scene {
    pub entities: Vec<Entity>,
}

/// The outcome of looking for the single player entity.
#[derive(Clone, Copy, Debug, PartialEq, Eq)]
pub enum Lookup {
    NotFound,
    Found(usize),
    Ambiguous,
}

/// How many entities of `s` carry `tag`.
pub open spec fn count_tagged(s: Seq<Entity>, tag: Tag) -> nat
    decreases s.len(),
{
    if s.len() == 0 {
        0
    } else {
        count_tagged(s.drop_last(), tag) + (if s.last().tag == tag { 1nat } else { 0nat })
    }
}

/// The player tag.
pub open spec fn player_tag() -> Tag {
    Tag::Player(Player)
}

/// The window's centre, in units.
pub open spec fn center(window: WindowSize) -> (int, int) {
    (window.width_units() / 2, window.height_units() / 2)
}

proof fn lemma_count_push(s: Seq<Entity>, e: Entity, tag: Tag)
    ensures
        count_tagged(s.push(e), tag) == count_tagged(s, tag) + (if e.tag == tag { 1nat } else { 0nat }),
{
    assert(s.push(e).drop_last() =~= s);
}

proof fn lemma_count_take(s: Seq<Entity>, i: int, tag: Tag)
    requires
        0 <= i < s.len(),
    ensures
        count_tagged(s.take(i + 1), tag)
            == count_tagged(s.take(i), tag) + (if s[i].tag == tag { 1nat } else { 0nat }),
{
    assert(s.take(i + 1).drop_last() =~= s.take(i));
}

/// An entity carrying `tag` is counted.
proof fn lemma_count_positive(s: Seq<Entity>, tag: Tag, j: int)
    requires
        0 <= j < s.len(),
        s[j].tag == tag,
    ensures
        count_tagged(s, tag) >= 1,
    decreases s.len(),
{
    if j < s.len() - 1 {
        lemma_count_positive(s.drop_last(), tag, j);
    }
}

/// Two distinct entities carrying `tag` are both counted.
proof fn lemma_count_two(s: Seq<Entity>, tag: Tag, i: int, j: int)
    requires
        0 <= i < s.len(),
        0 <= j < s.len(),
        i != j,
        s[i].tag == tag,
        s[j].tag == tag,
    ensures
        count_tagged(s, tag) >= 2,
    decreases s.len(),
{
    let last = s.len() - 1;
    if i == last {
        lemma_count_positive(s.drop_last(), tag, j);
    } else if j == last {
        lemma_count_positive(s.drop_last(), tag, i);
    } else {
        lemma_count_two(s.drop_last(), tag, i, j);
    }
}

/// `e` with its transform replaced by `t`.
pub open spec fn with_transform(e: Entity, t: Transform) -> Entity {
    Entity { transform: t, ..e }
}

/// The entities after one frame of player movement: the player moves when
/// there is exactly one; otherwise nothing changes.
pub open spec fn after_movement(s: Seq<Entity>, keys: Keys, dt: int) -> Seq<Entity> {
    if count_tagged(s, player_tag()) == 1 {
        s.map_values(
            |e: Entity|
                if e.tag == player_tag() {
                    with_transform(e, moved(e.transform, keys, dt))
                } else {
                    e
                },
        )
    } else {
        s
    }
}

/// The entities after confinement: the player is clamped into the window
/// when there is exactly one; otherwise nothing changes.
pub open spec fn after_confinement(s: Seq<Entity>, window: WindowSize) -> Seq<Entity> {
    if count_tagged(s, player_tag()) == 1 {
        s.map_values(
            |e: Entity|
                if e.tag == player_tag() {
                    with_transform(e, confined(e.transform, window))
                } else {
                    e
                },
        )
    } else {
        s
    }
}

/// The camera entity: at the window's centre, unscaled.
pub open spec fn camera_entity(window: WindowSize) -> Entity {
    Entity {
        tag: Tag::Camera,
        transform: Transform {
            x: center(window).0 as i64,
            y: center(window).1 as i64,
            scale_x: SCALE_ONE,
            scale_y: SCALE_ONE,
        },
    }
}

/// The player entity as it starts: at the window's centre, at sprite scale.
pub open spec fn player_entity(window: WindowSize) -> Entity {
    Entity {
        tag: player_tag(),
        transform: Transform {
            x: center(window).0 as i64,
            y: center(window).1 as i64,
            scale_x: SPRITE_SCALE,
            scale_y: SPRITE_SCALE,
        },
    }
}

/// Where a pair of uniform draws places an enemy: each draw, read as a
/// fraction of 2^32, times the window side, rounded down.
pub open spec fn enemy_spot(rx: int, ry: int, window: WindowSize) -> (int, int) {
    (rx * window.width_units() / 0x1_0000_0000, ry * window.height_units() / 0x1_0000_0000)
}

/// One coordinate lies in `[0, side)`, or is 0 on a side of length 0.
pub open spec fn in_side(v: int, side: int) -> bool {
    0 <= v < side || (side == 0 && v == 0)
}

/// `e` is an enemy at sprite scale, standing inside the window.
pub open spec fn is_placed_enemy(e: Entity, window: WindowSize) -> bool {
    &&& e.tag == Tag::Enemy(Enemy)
    &&& e.transform.scale_x == SPRITE_SCALE
    &&& e.transform.scale_y == SPRITE_SCALE
    &&& in_side(e.transform.x as int, window.width_units())
    &&& in_side(e.transform.y as int, window.height_units())
}

/// Relies on rand::random: a value drawn from the thread-local generator.
/// Nothing is known of the value.
pub assume_specification<T>[ rand::random::<T> ]() -> (r: T)
    where
        rand::distributions::Standard: rand::distributions::Distribution<T>,
;

/// One side of the window, in units.
fn side_units(pixels: u32) -> (r: i64)
    ensures
        r == pixels * UNITS_PER_PIXEL,
{
    (pixels as i64) * UNITS_PER_PIXEL
}

/// A draw `r`, read as a fraction of 2^32, times `side`, rounded down.
fn scaled_draw(r: u32, side: i64) -> (v: i64)
    requires
        0 <= side <= 0xffff_ffff * 1000,
    ensures
        v == r * side / 0x1_0000_0000,
        in_side(v as int, side as int),
{
    proof {
        assert(r * side <= 0xffff_ffff * side) by (nonlinear_arith)
            requires 0 <= r <= 0xffff_ffff, 0 <= side;
        assert(0xffff_ffff * side <= 0xffff_ffff * (0xffff_ffff * 1000)) by (nonlinear_arith)
            requires 0 <= side <= 0xffff_ffff * 1000;
        assert(r * side / 0x1_0000_0000 <= side) by (nonlinear_arith)
            requires r * side <= 0xffff_ffff * side, 0 <= side;
        if side > 0 {
            assert(r * side / 0x1_0000_0000 < side) by (nonlinear_arith)
                requires r * side <= 0xffff_ffff * side, 0 < side;
        }
    }
    let p: u128 = (r as u128) * (side as u128);
    (p / 0x1_0000_0000u128) as i64
}

/// The enemy placed by the draws `rx` and `ry`; see [`enemy_spot`].
pub fn enemy_at(rx: u32, ry: u32, window: WindowSize) -> (e: Entity)
    ensures
        e.transform.x == enemy_spot(rx as int, ry as int, window).0,
        e.transform.y == enemy_spot(rx as int, ry as int, window).1,
        is_placed_enemy(e, window),
{
    let x = scaled_draw(rx, side_units(window.width));
    let y = scaled_draw(ry, side_units(window.height));
    Entity {
        tag: Tag::Enemy(Enemy),
        transform: Transform { x, y, scale_x: SPRITE_SCALE, scale_y: SPRITE_SCALE },
    }
}

impl Scene {
    /// An empty scene.
    pub fn new() -> (r: Scene)
        ensures
            r.entities@.len() == 0,
    {
        Scene { entities: Vec::new() }
    }

    /// Looks for the single player entity: its index when exactly one
    /// entity is tagged player, `NotFound` when none is, `Ambiguous` when
    /// more than one is.
    pub fn find_player(&self) -> (r: Lookup)
        ensures
            (r == Lookup::NotFound) <==> count_tagged(self.entities@, player_tag()) == 0,
            (r is Ambiguous) <==> count_tagged(self.entities@, player_tag()) >= 2,
            r matches Lookup::Found(i) ==> i < self.entities@.len()
                && self.entities@[i as int].tag == player_tag()
                && count_tagged(self.entities@, player_tag()) == 1,
    {
        let mut found: Option<usize> = None;
        let mut i: usize = 0;
        while i < self.entities.len()
            invariant
                i <= self.entities@.len(),
                count_tagged(self.entities@.take(i as int), player_tag()) <= 1,
                found is None <==> count_tagged(self.entities@.take(i as int), player_tag()) == 0,
                found matches Some(k) ==> k < i && self.entities@[k as int].tag == player_tag(),
            decreases self.entities@.len() - i,
        {
            proof {
                lemma_count_take(self.entities@, i as int, player_tag());
            }
            if let Tag::Player(_) = self.entities[i].tag {
                if found.is_some() {
                    proof {
                        self.lemma_count_at_least_prefix(i as int + 1);
                    }
                    return Lookup::Ambiguous;
                }
                found = Some(i);
            }
            i = i + 1;
        }
        assert(self.entities@.take(i as int) =~= self.entities@);
        match found {
            None => Lookup::NotFound,
            Some(k) => Lookup::Found(k),
        }
    }

    /// Adds the camera, centred on the window.
    pub fn spawn_camera(&mut self, window: WindowSize)
        ensures
            final(self).entities@ == old(self).entities@.push(camera_entity(window)),
    {
        let x = side_units(window.width) / 2;
        let y = side_units(window.height) / 2;
        self.entities.push(
            Entity {
                tag: Tag::Camera,
                transform: Transform { x, y, scale_x: SCALE_ONE, scale_y: SCALE_ONE },
            },
        );
    }

    /// Adds the player, centred on the window, at sprite scale.
    pub fn spawn_player(&mut self, window: WindowSize)
        ensures
            final(self).entities@ == old(self).entities@.push(player_entity(window)),
    {
        let x = side_units(window.width) / 2;
        let y = side_units(window.height) / 2;
        self.entities.push(
            Entity {
                tag: Tag::Player(Player),
                transform: Transform { x, y, scale_x: SPRITE_SCALE, scale_y: SPRITE_SCALE },
            },
        );
    }

    /// Adds [`NUM_ENEMIES`] enemies, each at a uniformly drawn spot of the
    /// window; the entities already there are kept.
    pub fn spawn_enemies(&mut self, window: WindowSize)
        ensures
            final(self).entities@.len() == old(self).entities@.len() + NUM_ENEMIES,
            final(self).entities@.take(old(self).entities@.len() as int) == old(self).entities@,
            forall|j: int|
                old(self).entities@.len() <= j < final(self).entities@.len()
                    ==> is_placed_enemy(#[trigger] final(self).entities@[j], window),
            forall|tag: Tag|
                count_tagged(final(self).entities@, tag) == count_tagged(old(self).entities@, tag)
                    + (if tag == Tag::Enemy(Enemy) { NUM_ENEMIES as nat } else { 0nat }),
    {
        let ghost start = self.entities@;
        let mut n: usize = 0;
        while n < NUM_ENEMIES
            invariant
                n <= NUM_ENEMIES,
                self.entities@.len() == start.len() + n,
                self.entities@.take(start.len() as int) == start,
                forall|j: int|
                    start.len() <= j < self.entities@.len()
                        ==> is_placed_enemy(#[trigger] self.entities@[j], window),
                forall|tag: Tag|
                    count_tagged(self.entities@, tag) == count_tagged(start, tag)
                        + (if tag == Tag::Enemy(Enemy) { n as nat } else { 0nat }),
            decreases NUM_ENEMIES - n,
        {
            let rx = rand::random::<u32>();
            let ry = rand::random::<u32>();
            let e = enemy_at(rx, ry, window);
            let ghost before = self.entities@;
            self.entities.push(e);
            proof {
                assert(self.entities@.take(start.len() as int) =~= before.take(start.len() as int));
                assert forall|tag: Tag|
                    count_tagged(self.entities@, tag) == count_tagged(start, tag)
                        + (if tag == Tag::Enemy(Enemy) { (n + 1) as nat } else { 0nat }) by {
                    lemma_count_push(before, e, tag);
                }
            }
            n = n + 1;
        }
    }

    /// One frame of player movement: when exactly one player exists, it
    /// moves by the displacement of `keys` over `dt` milliseconds; when none
    /// or several do, nothing changes.
    pub fn player_movement(&mut self, keys: Keys, dt: u32)
        requires
            forall|j: int|
                0 <= j < old(self).entities@.len() && (#[trigger] old(self).entities@[j]).tag
                    == player_tag() ==> within_limit(old(self).entities@[j].transform),
        ensures
            final(self).entities@ == after_movement(old(self).entities@, keys, dt as int),
    {
        match self.find_player() {
            Lookup::Found(i) => {
                let e = self.entities[i];
                let t = move_transform(e.transform, keys, dt);
                let ghost before = self.entities@;
                self.entities.set(i, Entity { transform: t, ..e });
                proof {
                    assert forall|j: int| 0 <= j < before.len() && j != i implies before[j].tag
                        != player_tag() by {
                        if before[j].tag == player_tag() {
                            lemma_count_two(before, player_tag(), i as int, j);
                        }
                    }
                    assert(self.entities@ =~= after_movement(before, keys, dt as int));
                }
            },
            _ => {},
        }
    }

    /// Keeps the player inside the window: when exactly one player exists,
    /// each of its coordinates is clamped to lie at least half the drawn
    /// sprite from either edge; when none or several do, nothing changes.
    pub fn confine_player(&mut self, window: WindowSize)
        ensures
            final(self).entities@ == after_confinement(old(self).entities@, window),
    {
        match self.find_player() {
            Lookup::Found(i) => {
                let e = self.entities[i];
                let t = confine_transform(e.transform, window);
                let ghost before = self.entities@;
                self.entities.set(i, Entity { transform: t, ..e });
                proof {
                    assert forall|j: int| 0 <= j < before.len() && j != i implies before[j].tag
                        != player_tag() by {
                        if before[j].tag == player_tag() {
                            lemma_count_two(before, player_tag(), i as int, j);
                        }
                    }
                    assert(self.entities@ =~= after_confinement(before, window));
                }
            },
            _ => {},
        }
    }

    /// The scene as the game starts: the player, then the enemies, then
    /// the camera. It holds exactly one player, one camera and
    /// [`NUM_ENEMIES`] enemies.
    pub fn setup(window: WindowSize) -> (r: Scene)
        ensures
            r.entities@.len() == NUM_ENEMIES + 2,
            r.entities@[0] == player_entity(window),
            r.entities@[NUM_ENEMIES + 1] == camera_entity(window),
            forall|j: int| 1 <= j <= NUM_ENEMIES ==> is_placed_enemy(#[trigger] r.entities@[j], window),
            count_tagged(r.entities@, player_tag()) == 1,
            count_tagged(r.entities@, Tag::Camera) == 1,
            count_tagged(r.entities@, Tag::Enemy(Enemy)) == NUM_ENEMIES,
    {
        let mut scene = Scene::new();
        scene.spawn_player(window);
        proof {
            assert(scene.entities@ =~= seq![].push(player_entity(window)));
            lemma_count_push(seq![], player_entity(window), player_tag());
            lemma_count_push(seq![], player_entity(window), Tag::Camera);
            lemma_count_push(seq![], player_entity(window), Tag::Enemy(Enemy));
        }
        scene.spawn_enemies(window);
        let ghost mid = scene.entities@;
        scene.spawn_camera(window);
        proof {
            lemma_count_push(mid, camera_entity(window), player_tag());
            lemma_count_push(mid, camera_entity(window), Tag::Camera);
            lemma_count_push(mid, camera_entity(window), Tag::Enemy(Enemy));
            assert(mid.take(1)[0] == mid[0]);
        }
        scene
    }

    proof fn lemma_count_at_least_prefix(&self, n: int)
        requires
            0 <= n <= self.entities@.len(),
        ensures
            count_tagged(self.entities@, player_tag())
                >= count_tagged(self.entities@.take(n), player_tag()),
        decreases self.entities@.len() - n,
    {
        if n < self.entities@.len() {
            lemma_count_take(self.entities@, n, player_tag());
            self.lemma_count_at_least_prefix(n + 1);
        } else {
            assert(self.entities@.take(n) =~= self.entities@);
        }
    }
}

} // verus!
