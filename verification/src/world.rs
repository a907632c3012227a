//! The scrolling world: the character, the looping background pair, the
//! obstacle list, and the spawn timeline.
//!
//! One call to `WalkTheDog::update` is one simulation tick: deliver the
//! pressed keys to the character, advance it, retire obstacles that left
//! the screen, move and collision-check every obstacle (twice, faithfully
//! reproducing the original scroller's double application), scroll the two
//! background tiles with wrap-around, and extend the obstacle timeline
//! when it runs low.

use std::rc::Rc;

use vstd::prelude::*;

use crate::character::Event;
use crate::character::RedHatBoyStateMachine;
use crate::geometry::Point;
use crate::obstacle::Obstacle;
use crate::obstacle::ObstacleKind;
use crate::obstacle::ObstacleView;
use crate::obstacle::spec_collision_machine;
use crate::obstacle::spec_shift_rect;
use crate::obstacle::spec_shift_view;
use crate::obstacle::spec_view_right;
use crate::obstacle::Image;
use crate::obstacle::rightmost;
use crate::red_hat_boy::RedHatBoy;
use crate::red_hat_boy::spec_sheet_complete;
use crate::segment::FIRST_PLATFORM;
use crate::segment::MAX_STONE_EXTENT;
use crate::segment::PLATFORM_WIDTH;
use crate::segment::spec_segment_platform_view;
use crate::segment::spec_segment_stone_view;
use crate::segment::stone_and_platform;
use crate::sprite::Sheet;

verus! {

/// When the generated timeline falls below this, the next obstacle group
/// is appended.
pub const TIMELINE_MINIMUM: i16 = 1000;

/// Gap between the current timeline and the next obstacle group.
pub const OBSTACLE_BUFFER: i16 = 20;

/// Bounds on an obstacle's right edge while it lives in the world list.
pub const WORLD_RIGHT_MIN: i16 = -150;

pub const WORLD_RIGHT_MAX: i16 = 4000;

/// The three keys the simulation polls once per tick.
#[derive(Clone, Copy, Debug, PartialEq, Eq, Structural)]
pub struct KeyState {
    pub arrow_right: bool,
    pub arrow_down: bool,
    pub space: bool,
}

/// The character's machine after one tick's input events and its update.
pub open spec fn spec_machine_after_input(
    m: RedHatBoyStateMachine,
    k: KeyState,
) -> RedHatBoyStateMachine {
    let m1 = if k.arrow_right {
        m.spec_transition(Event::Run)
    } else {
        m
    };
    let m2 = if k.arrow_down {
        m1.spec_transition(Event::Slide)
    } else {
        m1
    };
    let m3 = if k.space {
        m2.spec_transition(Event::Jump)
    } else {
        m2
    };
    m3.spec_transition(Event::Update)
}

/// The obstacles that survive retirement: those still reaching into the
/// screen from the right of its left edge.
pub open spec fn spec_retained(s: Seq<ObstacleKind>) -> Seq<ObstacleKind>
    decreases s.len(),
{
    if s.len() == 0 {
        Seq::empty()
    } else {
        let rest = spec_retained(s.drop_last());
        if spec_view_right(s.last().obs_view()) > 0 {
            rest.push(s.last())
        } else {
            rest
        }
    }
}

/// One move-and-check pass over the obstacle views, folding the collision
/// consequences into the machine in list order.
pub open spec fn spec_move_check(
    views: Seq<ObstacleView>,
    v: i16,
    m: RedHatBoyStateMachine,
    sheet: Sheet,
) -> RedHatBoyStateMachine
    decreases views.len(),
{
    if views.len() == 0 {
        m
    } else {
        let m1 = spec_collision_machine(spec_shift_view(views[0], v), m, sheet);
        spec_move_check(views.drop_first(), v, m1, sheet)
    }
}

/// An image shifted horizontally.
pub open spec fn spec_shift_image(img: Image, x: i16) -> Image {
    Image { bounding_box: spec_shift_rect(img.bounding_box, x) }
}

/// An image with its left edge put at `x`.
pub open spec fn spec_image_at(img: Image, x: i16) -> Image {
    Image {
        bounding_box: crate::geometry::Rect {
            position: Point { x, y: img.bounding_box.position.y },
            ..img.bounding_box
        },
    }
}

/// The background pair after one tick: both tiles scroll left, and a tile
/// that fully left the screen is relocated to the right of its sibling.
pub open spec fn spec_scrolled_pair(a: Image, b: Image, v: i16) -> (Image, Image) {
    let a1 = spec_shift_image(a, v);
    let b1 = spec_shift_image(b, v);
    let a2 = if a1.bounding_box.spec_right() < 0 {
        spec_image_at(a1, (b1.bounding_box.spec_right()) as i16)
    } else {
        a1
    };
    let b2 = if b1.bounding_box.spec_right() < 0 {
        spec_image_at(b1, (a2.bounding_box.spec_right()) as i16)
    } else {
        b1
    };
    (a2, b2)
}

/// Every listed obstacle is well-formed, with its right edge in the range
/// the world keeps them in.
pub open spec fn spec_obstacles_wf(s: Seq<ObstacleKind>) -> bool {
    forall|i: int|
        0 <= i < s.len() ==> {
            let o = #[trigger] s[i];
            &&& o.wf()
            &&& WORLD_RIGHT_MIN <= spec_view_right(o.obs_view()) <= WORLD_RIGHT_MAX
        }
}

/// The smaller of the two tiles' left edges.
pub open spec fn spec_min_x(a: Image, b: Image) -> int {
    if a.bounding_box.position.x <= b.bounding_box.position.x {
        a.bounding_box.position.x as int
    } else {
        b.bounding_box.position.x as int
    }
}

/// The two background tiles are equally wide, adjacent (one starts where
/// the other ends), and the pair covers the screen's left edge.
pub open spec fn spec_backgrounds_wf(a: Image, b: Image) -> bool {
    let w = a.bounding_box.width;
    &&& b.bounding_box.width == w
    &&& 100 <= w <= 2000
    &&& (b.bounding_box.position.x == a.bounding_box.position.x + w || a.bounding_box.position.x
        == b.bounding_box.position.x + w)
    &&& -w <= spec_min_x(a, b) <= 0
    &&& 0 <= a.bounding_box.position.y <= 2000
    &&& 0 <= b.bounding_box.position.y <= 2000
    &&& 0 <= a.bounding_box.height <= 2000
    &&& 0 <= b.bounding_box.height <= 2000
}

/// Retire the obstacles whose right edge has left the screen.
fn retire_obstacles(obstacles: &mut Vec<ObstacleKind>)
    requires
        spec_obstacles_wf(old(obstacles)@),
    ensures
        final(obstacles)@ == spec_retained(old(obstacles)@),
        spec_obstacles_wf(final(obstacles)@),
        forall|i: int|
            0 <= i < final(obstacles)@.len() ==> spec_view_right(
                (#[trigger] final(obstacles)@[i]).obs_view(),
            ) > 0,
{
    let ghost orig = obstacles@;
    let mut kept: Vec<ObstacleKind> = Vec::new();
    let ghost mut k: int = 0;
    proof {
        assert(orig.take(0) =~= Seq::<ObstacleKind>::empty());
    }
    while obstacles.len() > 0
        invariant
            0 <= k <= orig.len(),
            obstacles@ =~= orig.skip(k),
            spec_obstacles_wf(orig),
            kept@ == spec_retained(orig.take(k)),
            spec_obstacles_wf(kept@),
            forall|i: int|
                0 <= i < kept@.len() ==> spec_view_right((#[trigger] kept@[i]).obs_view()) > 0,
        decreases obstacles@.len(),
    {
        proof {
            assert(orig.skip(k)[0] == orig[k]);
            assert(orig.take(k + 1).drop_last() =~= orig.take(k));
            assert(orig.take(k + 1).last() == orig[k]);
        }
        let obstacle = obstacles.remove(0);
        let keep = obstacle.right() > 0;
        if keep {
            kept.push(obstacle);
        }
        proof {
            assert(orig.skip(k).drop_first() =~= orig.skip(k + 1));
            k = k + 1;
        }
    }
    proof {
        assert(orig.take(orig.len() as int) =~= orig);
    }
    core::mem::swap(obstacles, &mut kept);
}

/// Folding one more view into a pass is one more collision check.
proof fn lemma_move_check_snoc(
    views: Seq<ObstacleView>,
    x: ObstacleView,
    v: i16,
    m: RedHatBoyStateMachine,
    sheet: Sheet,
)
    ensures
        spec_move_check(views.push(x), v, m, sheet) == spec_collision_machine(
            spec_shift_view(x, v),
            spec_move_check(views, v, m, sheet),
            sheet,
        ),
    decreases views.len(),
{
    if views.len() == 0 {
        assert(views.push(x)[0] == x);
        assert(views.push(x).drop_first() =~= Seq::<ObstacleView>::empty());
        assert(spec_move_check(
            Seq::<ObstacleView>::empty(),
            v,
            spec_collision_machine(spec_shift_view(x, v), m, sheet),
            sheet,
        ) == spec_collision_machine(spec_shift_view(x, v), m, sheet));
    } else {
        assert(views.push(x)[0] == views[0]);
        assert(views.push(x).drop_first() =~= views.drop_first().push(x));
        let m1 = spec_collision_machine(spec_shift_view(views[0], v), m, sheet);
        lemma_move_check_snoc(views.drop_first(), x, v, m1, sheet);
    }
}

/// One pass of the scroller: move every obstacle left by the scroll
/// velocity and evaluate its contact with the character, in list order.
fn sweep_obstacles(obstacles: &mut Vec<ObstacleKind>, boy: &mut RedHatBoy, velocity: i16)
    requires
        old(boy).wf(),
        -3 <= velocity <= 0,
        spec_obstacles_wf(old(obstacles)@),
        forall|i: int|
            0 <= i < old(obstacles)@.len() ==> spec_view_right(
                (#[trigger] old(obstacles)@[i]).obs_view(),
            ) >= -100,
    ensures
        final(obstacles)@.len() == old(obstacles)@.len(),
        forall|i: int|
            0 <= i < final(obstacles)@.len() ==> (#[trigger] final(obstacles)@[i]).obs_view()
                == spec_shift_view(old(obstacles)@[i].obs_view(), velocity),
        spec_obstacles_wf(final(obstacles)@),
        forall|i: int|
            0 <= i < final(obstacles)@.len() ==> spec_view_right(
                (#[trigger] final(obstacles)@[i]).obs_view(),
            ) == spec_view_right(old(obstacles)@[i].obs_view()) + velocity,
        final(boy).wf(),
        final(boy).sprite_sheet == old(boy).sprite_sheet,
        final(boy).state_machine == spec_move_check(
            old(obstacles)@.map_values(|o: ObstacleKind| o.obs_view()),
            velocity,
            old(boy).state_machine,
            old(boy).sprite_sheet,
        ),
{
    let ghost orig = obstacles@;
    let ghost views = orig.map_values(|o: ObstacleKind| o.obs_view());
    proof {
        assert(views.take(0) =~= Seq::<ObstacleView>::empty());
    }
    let mut i: usize = 0;
    while i < obstacles.len()
        invariant
            0 <= i <= orig.len(),
            obstacles@.len() == orig.len(),
            views == orig.map_values(|o: ObstacleKind| o.obs_view()),
            -3 <= velocity <= 0,
            spec_obstacles_wf(orig),
            forall|j: int|
                0 <= j < orig.len() ==> spec_view_right((#[trigger] orig[j]).obs_view()) >= -100,
            forall|j: int| i <= j < orig.len() ==> obstacles@[j] == orig[j],
            forall|j: int|
                0 <= j < i ==> (#[trigger] obstacles@[j]).obs_view() == spec_shift_view(
                    views[j],
                    velocity,
                ) && obstacles@[j].wf() && WORLD_RIGHT_MIN <= spec_view_right(
                    obstacles@[j].obs_view(),
                ) <= WORLD_RIGHT_MAX && spec_view_right(obstacles@[j].obs_view())
                    == spec_view_right(orig[j].obs_view()) + velocity,
            boy.wf(),
            boy.sprite_sheet == old(boy).sprite_sheet,
            boy.state_machine == spec_move_check(
                views.take(i as int),
                velocity,
                old(boy).state_machine,
                old(boy).sprite_sheet,
            ),
        decreases orig.len() - i,
    {
        proof {
            assert(views[i as int] == orig[i as int].obs_view());
        }
        obstacles[i].move_horizontally(velocity);
        let obstacle = &obstacles[i];
        obstacle.check_intersection(boy);
        proof {
            assert(views.take(i as int + 1) =~= views.take(i as int).push(views[i as int]));
            lemma_move_check_snoc(
                views.take(i as int),
                views[i as int],
                velocity,
                old(boy).state_machine,
                old(boy).sprite_sheet,
            );
        }
        i = i + 1;
    }
    proof {
        assert(views.take(orig.len() as int) =~= views);
    }
}

/// Scroll the two background tiles and wrap whichever has fully left the
/// screen around to the right of its sibling.
fn scroll_background(first: &mut Image, second: &mut Image, velocity: i16)
    requires
        spec_backgrounds_wf(*old(first), *old(second)),
        -3 <= velocity <= 0,
    ensures
        *final(first) == spec_scrolled_pair(*old(first), *old(second), velocity).0,
        *final(second) == spec_scrolled_pair(*old(first), *old(second), velocity).1,
        spec_backgrounds_wf(*final(first), *final(second)),
{
    first.move_horizontally(velocity);
    second.move_horizontally(velocity);
    if first.right() < 0 {
        let x = second.right();
        first.set_x(x);
    }
    if second.right() < 0 {
        let x = first.right();
        second.set_x(x);
    }
}

/// Where the timeline stands after a spawn anchored at `offset`: the right
/// edge of the new group, which its platform always provides.
pub open spec fn spec_spawned_timeline(offset: i16) -> int {
    offset + FIRST_PLATFORM + PLATFORM_WIDTH
}

/// Extend the obstacle course: when the timeline runs low, append the next
/// obstacle group just beyond it and move the timeline to the group's
/// right edge; otherwise the timeline scrolls with the world.
fn advance_timeline(
    obstacles: &mut Vec<ObstacleKind>,
    timeline: &mut i16,
    obstacle_sheet: &Rc<Sheet>,
    stone_width: i16,
    stone_height: i16,
    velocity: i16,
)
    requires
        -200 <= *old(timeline) <= 2000,
        -3 <= velocity <= 0,
        0 <= stone_width <= MAX_STONE_EXTENT,
        0 <= stone_height <= MAX_STONE_EXTENT,
        spec_obstacles_wf(old(obstacles)@),
    ensures
        spec_obstacles_wf(final(obstacles)@),
        -200 <= *final(timeline) <= 2000,
        ({
            if *old(timeline) < TIMELINE_MINIMUM {
                let offset = (*old(timeline) + OBSTACLE_BUFFER) as i16;
                &&& final(obstacles)@.len() == old(obstacles)@.len() + 2
                &&& forall|i: int|
                    0 <= i < old(obstacles)@.len() ==> final(obstacles)@[i] == old(obstacles)@[i]
                &&& final(obstacles)@[old(obstacles)@.len() as int].obs_view()
                    == spec_segment_stone_view(offset, stone_width, stone_height)
                &&& final(obstacles)@[old(obstacles)@.len() + 1int].obs_view()
                    == spec_segment_platform_view(offset)
                &&& *final(timeline) == spec_spawned_timeline(offset)
            } else {
                &&& final(obstacles)@ == old(obstacles)@
                &&& *final(timeline) == *old(timeline) + velocity
            }
        }),
{
    if *timeline < TIMELINE_MINIMUM {
        let offset = *timeline + OBSTACLE_BUFFER;
        let mut next_obstacles = stone_and_platform(
            stone_width,
            stone_height,
            obstacle_sheet.clone(),
            offset,
        );
        let ghost batch = next_obstacles@;
        let ghost previous = obstacles@;
        proof {
            assert(batch.drop_first() =~= seq![batch[1]]);
            assert(crate::obstacle::spec_max_right(seq![batch[1]]) == spec_view_right(
                batch[1].obs_view(),
            ));
            assert(crate::obstacle::spec_max_right(batch) == spec_view_right(batch[1].obs_view()));
        }
        *timeline = rightmost(&next_obstacles);
        obstacles.append(&mut next_obstacles);
        proof {
            assert forall|i: int| 0 <= i < obstacles@.len() implies {
                let o = #[trigger] obstacles@[i];
                &&& o.wf()
                &&& WORLD_RIGHT_MIN <= spec_view_right(o.obs_view()) <= WORLD_RIGHT_MAX
            } by {
                if i < previous.len() {
                    assert(obstacles@[i] == previous[i]);
                } else if i == previous.len() {
                    assert(obstacles@[i] == batch[0]);
                } else {
                    assert(obstacles@[i] == batch[1]);
                }
            }
        }
    } else {
        *timeline = *timeline + velocity;
    }
}

} // verus!

verus! {

/// The error the world can report: it was asked to initialize twice.
#[derive(Clone, Copy, Debug, PartialEq, Eq, Structural)]
pub enum GameError {
    AlreadyInitialized,
}

/// The world: the character, the two background tiles, the obstacle list,
/// the shared obstacle sheet, the stone's extent, and the spawn watermark.
pub struct Walk {
    pub boy: RedHatBoy,
    pub first_background: Image,
    pub second_background: Image,
    pub obstacles: Vec<ObstacleKind>,
    pub obstacle_sheet: Rc<Sheet>,
    pub stone_width: i16,
    pub stone_height: i16,
    pub timeline: i16,
}

/// How one tick transforms the world: the full relation between the world
/// before (`w0`) and after (`w1`) an update under the keys `k`.
pub open spec fn spec_walk_updated(w0: Walk, w1: Walk, k: KeyState) -> bool {
    let m1 = spec_machine_after_input(w0.boy.state_machine, k);
    let v = (0 - m1.spec_context().velocity.x) as i16;
    let sheet = w0.boy.sprite_sheet;
    let retained = spec_retained(w0.obstacles@);
    let views = retained.map_values(|o: ObstacleKind| o.obs_view());
    let m2 = spec_move_check(views, v, m1, sheet);
    let shifted = views.map_values(|vw: ObstacleView| spec_shift_view(vw, v));
    let m3 = spec_move_check(shifted, v, m2, sheet);
    let pair = spec_scrolled_pair(w0.first_background, w0.second_background, v);
    &&& w1.boy.sprite_sheet == sheet
    &&& w1.boy.state_machine == m3
    &&& w1.first_background == pair.0
    &&& w1.second_background == pair.1
    &&& w1.obstacle_sheet == w0.obstacle_sheet
    &&& w1.stone_width == w0.stone_width
    &&& w1.stone_height == w0.stone_height
    &&& forall|i: int|
        0 <= i < retained.len() ==> (#[trigger] w1.obstacles@[i]).obs_view() == spec_shift_view(
            spec_shift_view(views[i], v),
            v,
        )
    &&& if w0.timeline < TIMELINE_MINIMUM {
        let offset = (w0.timeline + OBSTACLE_BUFFER) as i16;
        &&& w1.obstacles@.len() == retained.len() + 2
        &&& w1.obstacles@[retained.len() as int].obs_view() == spec_segment_stone_view(
            offset,
            w0.stone_width,
            w0.stone_height,
        )
        &&& w1.obstacles@[retained.len() + 1int].obs_view() == spec_segment_platform_view(offset)
        &&& w1.timeline == spec_spawned_timeline(offset)
    } else {
        &&& w1.obstacles@.len() == retained.len()
        &&& w1.timeline == w0.timeline + v
    }
}

impl Walk {
    pub open spec fn wf(&self) -> bool {
        &&& self.boy.wf()
        &&& spec_obstacles_wf(self.obstacles@)
        &&& spec_backgrounds_wf(self.first_background, self.second_background)
        &&& -200 <= self.timeline <= 2000
        &&& 0 <= self.stone_width <= MAX_STONE_EXTENT
        &&& 0 <= self.stone_height <= MAX_STONE_EXTENT
    }

    /// The world's scroll velocity: opposite the character's run speed.
    pub fn velocity(&self) -> (r: i16)
        requires
            0 <= self.boy.state_machine.spec_context().velocity.x,
        ensures
            r == 0 - self.boy.state_machine.spec_context().velocity.x,
    {
        -self.boy.walk_speed()
    }

    /// One simulation tick of the whole world.
    pub fn update(&mut self, keystate: &KeyState)
        requires
            old(self).wf(),
        ensures
            final(self).wf(),
            spec_walk_updated(*old(self), *final(self), *keystate),
    {
        if keystate.arrow_right {
            self.boy.run_right();
        }
        if keystate.arrow_down {
            self.boy.slide();
        }
        if keystate.space {
            self.boy.jump();
        }
        self.boy.update();
        let velocity = self.velocity();
        retire_obstacles(&mut self.obstacles);
        let ghost retained = self.obstacles@;
        let ghost views = retained.map_values(|o: ObstacleKind| o.obs_view());
        sweep_obstacles(&mut self.obstacles, &mut self.boy, velocity);
        let ghost after_first = self.obstacles@;
        proof {
            assert(after_first.map_values(|o: ObstacleKind| o.obs_view()) =~= views.map_values(
                |vw: ObstacleView| spec_shift_view(vw, velocity),
            ));
        }
        scroll_background(&mut self.first_background, &mut self.second_background, velocity);
        sweep_obstacles(&mut self.obstacles, &mut self.boy, velocity);
        proof {
            assert(forall|i: int|
                0 <= i < self.obstacles@.len() ==> (#[trigger] self.obstacles@[i]).obs_view()
                    == spec_shift_view(spec_shift_view(views[i], velocity), velocity));
        }
        advance_timeline(
            &mut self.obstacles,
            &mut self.timeline,
            &self.obstacle_sheet,
            self.stone_width,
            self.stone_height,
            velocity,
        );
    }
}

/// The game: still loading its assets, or a loaded, running world.
pub enum WalkTheDog {
    Loading,
    Loaded(Walk),
}

impl WalkTheDog {
    pub open spec fn wf(&self) -> bool {
        match *self {
            WalkTheDog::Loading => true,
            WalkTheDog::Loaded(ref w) => w.wf(),
        }
    }

    pub fn new() -> (r: Self)
        ensures
            r is Loading,
    {
        WalkTheDog::Loading
    }

    /// Build the world from decoded assets: the character's sheet, the
    /// obstacle sheet, the background tile's extent, and the stone's
    /// extent.  Initializing an already loaded game is an error.
    pub fn initialize(
        &self,
        boy_sheet: Sheet,
        obstacle_sheet: Rc<Sheet>,
        background_width: i16,
        background_height: i16,
        stone_width: i16,
        stone_height: i16,
    ) -> (r: Result<WalkTheDog, GameError>)
        requires
            boy_sheet.wf(),
            spec_sheet_complete(&boy_sheet),
            100 <= background_width <= 2000,
            0 <= background_height <= 2000,
            0 <= stone_width <= MAX_STONE_EXTENT,
            0 <= stone_height <= MAX_STONE_EXTENT,
        ensures
            self is Loaded ==> r == Err::<WalkTheDog, GameError>(GameError::AlreadyInitialized),
            self is Loading ==> ({
                &&& r matches Ok(g)
                &&& g is Loaded
                &&& ({
                    let w = g->Loaded_0;
                    &&& w.wf()
                    &&& w.boy.sprite_sheet == boy_sheet
                    &&& w.boy.state_machine == RedHatBoyStateMachine::Idle(
                        crate::character::RedHatBoyState::<crate::character::Idle>::spec_initial(),
                    )
                    &&& w.first_background == spec_image_at(
                        Image {
                            bounding_box: crate::geometry::Rect {
                                position: Point { x: 0, y: 0 },
                                width: background_width,
                                height: background_height,
                            },
                        },
                        0,
                    )
                    &&& w.second_background.bounding_box.position == (Point {
                        x: background_width,
                        y: 0,
                    })
                    &&& w.obstacles@.len() == 2
                    &&& w.obstacles@[0].obs_view() == spec_segment_stone_view(
                        0,
                        stone_width,
                        stone_height,
                    )
                    &&& w.obstacles@[1].obs_view() == spec_segment_platform_view(0)
                    &&& w.timeline == FIRST_PLATFORM + PLATFORM_WIDTH
                })
            }),
    {
        match self {
            WalkTheDog::Loading => {
                let starting_obstacles = stone_and_platform(
                    stone_width,
                    stone_height,
                    obstacle_sheet.clone(),
                    0,
                );
                proof {
                    assert(starting_obstacles@.drop_first() =~= seq![starting_obstacles@[1]]);
                    assert(crate::obstacle::spec_max_right(seq![starting_obstacles@[1]])
                        == spec_view_right(starting_obstacles@[1].obs_view()));
                }
                let timeline = rightmost(&starting_obstacles);
                let boy = RedHatBoy::new(boy_sheet);
                Ok(
                    WalkTheDog::Loaded(
                        Walk {
                            boy,
                            first_background: Image::new(
                                Point { x: 0, y: 0 },
                                background_width,
                                background_height,
                            ),
                            second_background: Image::new(
                                Point { x: background_width, y: 0 },
                                background_width,
                                background_height,
                            ),
                            obstacles: starting_obstacles,
                            obstacle_sheet,
                            stone_width,
                            stone_height,
                            timeline,
                        },
                    ),
                )
            },
            WalkTheDog::Loaded(_) => Err(GameError::AlreadyInitialized),
        }
    }

    /// One simulation tick: a no-op while loading, a world tick once
    /// loaded.
    pub fn update(&mut self, keystate: &KeyState)
        requires
            old(self).wf(),
        ensures
            final(self).wf(),
            *old(self) is Loading ==> *final(self) == *old(self),
            *old(self) is Loaded ==> *final(self) is Loaded && spec_walk_updated(
                (*old(self))->Loaded_0,
                (*final(self))->Loaded_0,
                *keystate,
            ),
    {
        match self {
            WalkTheDog::Loaded(walk) => walk.update(keystate),
            WalkTheDog::Loading => {
            },
        }
    }
}

} // verus!
