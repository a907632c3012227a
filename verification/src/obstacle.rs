//! World obstacles and their collision behaviour.
//!
//! Two concrete kinds implement the `Obstacle` capability set: a `Platform`
//! (several adjoining sprite cells with one collision box per segment, which
//! the character can land on or crash into) and a `Barrier` (a single
//! image; any contact is fatal).  `ObstacleKind` is the closed union the
//! world stores, since the set of kinds is fixed.
//!
//! For specification purposes every obstacle is abstracted to an
//! `ObstacleView`: its collision boxes, its landing threshold, and whether
//! landing is possible at all.  That view determines the whole observable
//! behaviour of the obstacle, so the world can reason about moved and
//! checked obstacles purely through views.

use std::rc::Rc;

use vstd::prelude::*;

use crate::character::Event;
use crate::character::HEIGHT;
use crate::character::RedHatBoyStateMachine;
use crate::geometry::Point;
use crate::geometry::Rect;
use crate::red_hat_boy::RedHatBoy;
use crate::red_hat_boy::spec_bounding_box_of;
use crate::sprite::Cell;
use crate::sprite::Sheet;

verus! {

/// Bound on the horizontal extent of a single obstacle: every collision box
/// starts at most this far left of the obstacle's right edge.
pub const OBSTACLE_SPAN: i16 = 2000;

/// Bound on the width and height of a single collision box.
pub const MAX_BOX_EXTENT: i16 = 600;

/// How far (in absolute value) an obstacle's right edge may sit from the
/// origin for its coordinates to stay comfortably inside `i16`.
pub const OBSTACLE_RANGE: i16 = 10000;

/// A positioned image: for the simulation, just its bounding box.  The
/// pixels it shows stay with the embedding program.
#[derive(Clone, Copy, Debug, PartialEq, Eq, Structural)]
pub struct Image {
    pub bounding_box: Rect,
}

impl Image {
    pub fn new(position: Point, width: i16, height: i16) -> (r: Image)
        ensures
            r.bounding_box == (Rect { position, width, height }),
    {
        Image { bounding_box: Rect::new(position, width, height) }
    }

    pub fn bounding_box(&self) -> (r: &Rect)
        ensures
            *r == self.bounding_box,
    {
        &self.bounding_box
    }

    pub fn right(&self) -> (r: i16)
        requires
            self.bounding_box.edges_fit(),
        ensures
            r == self.bounding_box.spec_right(),
    {
        self.bounding_box.right()
    }

    pub fn set_x(&mut self, x: i16)
        ensures
            final(self).bounding_box == (Rect {
                position: Point { x, y: old(self).bounding_box.position.y },
                ..old(self).bounding_box
            }),
    {
        self.bounding_box.set_x(x);
    }

    pub fn move_horizontally(&mut self, distance: i16)
        requires
            i16::MIN <= old(self).bounding_box.position.x + distance <= i16::MAX,
        ensures
            final(self).bounding_box == (Rect {
                position: Point {
                    x: (old(self).bounding_box.position.x + distance) as i16,
                    y: old(self).bounding_box.position.y,
                },
                ..old(self).bounding_box
            }),
    {
        let x = self.bounding_box.x() + distance;
        self.bounding_box.set_x(x);
    }
}

/// Everything that decides an obstacle's observable behaviour: its
/// collision boxes in world coordinates, whether the character can land on
/// it, and the vertical threshold below which contact counts as landing.
#[verifier::ext_equal]
pub ghost struct ObstacleView {
    pub landable: bool,
    pub boxes: Seq<Rect>,
    pub land_y: i16,
}

/// The rightmost extent of a view: the right edge of its last box.
pub open spec fn spec_view_right(v: ObstacleView) -> int {
    if v.boxes.len() == 0 {
        0
    } else {
        v.boxes.last().spec_right()
    }
}

/// A view shifted horizontally by `x`.
pub open spec fn spec_shift_rect(r: Rect, x: i16) -> Rect {
    Rect { position: Point { x: (r.position.x + x) as i16, y: r.position.y }, ..r }
}

pub open spec fn spec_shift_view(v: ObstacleView, x: i16) -> ObstacleView {
    ObstacleView { boxes: v.boxes.map_values(|b: Rect| spec_shift_rect(b, x)), ..v }
}

/// Well-formedness of a view: at least one box, boxes of bounded size at
/// on-screen heights, all boxes within `OBSTACLE_SPAN` of the right edge,
/// and a landing threshold on screen.
pub open spec fn spec_view_wf(v: ObstacleView) -> bool {
    &&& v.boxes.len() >= 1
    &&& forall|i: int|
        0 <= i < v.boxes.len() ==> {
            let b = #[trigger] v.boxes[i];
            &&& 0 <= b.width <= MAX_BOX_EXTENT
            &&& 0 <= b.height <= MAX_BOX_EXTENT
            &&& 0 <= b.position.y <= HEIGHT
            &&& spec_view_right(v) - OBSTACLE_SPAN <= b.position.x
            &&& b.position.x + b.width <= spec_view_right(v)
        }
    &&& 0 <= v.land_y <= HEIGHT
}

/// The first collision box that overlaps `bb`, scanning in order.  Only the
/// first match counts; this mirrors the deliberately simple collision rule.
pub open spec fn spec_first_hit(boxes: Seq<Rect>, bb: Rect) -> Option<Rect>
    decreases boxes.len(),
{
    if boxes.len() == 0 {
        None
    } else if bb.spec_intersects(&boxes[0]) {
        Some(boxes[0])
    } else {
        spec_first_hit(boxes.drop_first(), bb)
    }
}

proof fn lemma_first_hit_is_member(boxes: Seq<Rect>, bb: Rect)
    requires
        spec_first_hit(boxes, bb) is Some,
    ensures
        exists|i: int| 0 <= i < boxes.len() && boxes[i] == spec_first_hit(boxes, bb)->0,
    decreases boxes.len(),
{
    if boxes.len() == 0 {
    } else if bb.spec_intersects(&boxes[0]) {
        assert(boxes[0] == spec_first_hit(boxes, bb)->0);
    } else {
        lemma_first_hit_is_member(boxes.drop_first(), bb);
        let j = choose|j: int|
            0 <= j < boxes.drop_first().len() && boxes.drop_first()[j] == spec_first_hit(
                boxes.drop_first(),
                bb,
            )->0;
        assert(boxes[j + 1] == spec_first_hit(boxes, bb)->0);
    }
}

/// What contact with an obstacle does to the character's state machine,
/// given the obstacle's view: no overlap is no contact; on a landable
/// obstacle a descending character above the threshold lands on the first
/// overlapping box, any other contact knocks the character out.
pub open spec fn spec_collision_machine(
    v: ObstacleView,
    m: RedHatBoyStateMachine,
    sheet: Sheet,
) -> RedHatBoyStateMachine {
    match spec_first_hit(v.boxes, spec_bounding_box_of(m, sheet)) {
        Some(b) => {
            if v.landable && m.spec_context().velocity.y > 0 && m.spec_context().position.y
                < v.land_y {
                m.spec_transition(Event::Land(b.position.y))
            } else {
                m.spec_transition(Event::KnockOut)
            }
        },
        None => m,
    }
}

/// Shifting a well-formed view whose right edge stays inside
/// `OBSTACLE_RANGE` keeps it well-formed and moves its right edge exactly.
pub proof fn lemma_shift_view(v: ObstacleView, x: i16)
    requires
        spec_view_wf(v),
        -OBSTACLE_RANGE <= spec_view_right(v) <= OBSTACLE_RANGE,
        -OBSTACLE_RANGE <= spec_view_right(v) + x <= OBSTACLE_RANGE,
    ensures
        spec_view_wf(spec_shift_view(v, x)),
        spec_view_right(spec_shift_view(v, x)) == spec_view_right(v) + x,
{
    let w = spec_shift_view(v, x);
    assert(w.boxes.len() == v.boxes.len());
    assert(w.boxes.last() == spec_shift_rect(v.boxes[v.boxes.len() - 1], x));
    assert(v.boxes.last() == v.boxes[v.boxes.len() - 1]);
    assert(spec_view_right(w) == spec_view_right(v) + x);
    assert forall|i: int| 0 <= i < w.boxes.len() implies {
        let b = #[trigger] w.boxes[i];
        &&& 0 <= b.width <= MAX_BOX_EXTENT
        &&& 0 <= b.height <= MAX_BOX_EXTENT
        &&& 0 <= b.position.y <= HEIGHT
        &&& spec_view_right(w) - OBSTACLE_SPAN <= b.position.x
        &&& b.position.x + b.width <= spec_view_right(w)
    } by {
        assert(w.boxes[i] == spec_shift_rect(v.boxes[i], x));
    }
}

/// The capability set shared by all world obstacles.
pub trait Obstacle: Sized {
    /// The obstacle's internal invariant.
    spec fn wf(&self) -> bool;

    /// The abstraction that decides the obstacle's observable behaviour.
    spec fn obs_view(&self) -> ObstacleView;

    /// Evaluate contact with the character at the obstacle's current
    /// position, and apply its consequence to the character.
    fn check_intersection(&self, boy: &mut RedHatBoy)
        requires
            self.wf(),
            old(boy).wf(),
            -OBSTACLE_RANGE <= spec_view_right(self.obs_view()) <= OBSTACLE_RANGE,
        ensures
            final(boy).wf(),
            final(boy).sprite_sheet == old(boy).sprite_sheet,
            final(boy).state_machine == spec_collision_machine(
                self.obs_view(),
                old(boy).state_machine,
                old(boy).sprite_sheet,
            ),
    ;

    /// Shift the obstacle horizontally, collision boxes included.
    fn move_horizontally(&mut self, x: i16)
        requires
            old(self).wf(),
            -OBSTACLE_RANGE <= spec_view_right(old(self).obs_view()) + x <= OBSTACLE_RANGE,
            -OBSTACLE_RANGE <= spec_view_right(old(self).obs_view()) <= OBSTACLE_RANGE,
        ensures
            final(self).wf(),
            final(self).obs_view() == spec_shift_view(old(self).obs_view(), x),
            spec_view_right(final(self).obs_view()) == spec_view_right(old(self).obs_view()) + x,
    ;

    /// The rightmost extent, used for retirement and spawn bookkeeping.
    fn right(&self) -> (r: i16)
        requires
            self.wf(),
            -OBSTACLE_RANGE <= spec_view_right(self.obs_view()) <= OBSTACLE_RANGE,
        ensures
            r == spec_view_right(self.obs_view()),
    ;
}

/// Find the first collision box in `boxes` that overlaps `bb`.
fn first_hit(boxes: &Vec<Rect>, bb: &Rect) -> (r: Option<Rect>)
    requires
        bb.edges_fit(),
        forall|i: int| 0 <= i < boxes@.len() ==> (#[trigger] boxes@[i]).edges_fit(),
    ensures
        r == spec_first_hit(boxes@, *bb),
{
    proof {
        assert(boxes@.skip(0) =~= boxes@);
    }
    let mut i: usize = 0;
    while i < boxes.len()
        invariant
            0 <= i <= boxes@.len(),
            bb.edges_fit(),
            forall|j: int| 0 <= j < boxes@.len() ==> (#[trigger] boxes@[j]).edges_fit(),
            spec_first_hit(boxes@, *bb) == spec_first_hit(boxes@.skip(i as int), *bb),
        decreases boxes@.len() - i,
    {
        proof {
            assert(boxes@.skip(i as int)[0] == boxes@[i as int]);
            assert(boxes@.skip(i as int).drop_first() =~= boxes@.skip(i as int + 1));
        }
        let b = boxes[i];
        if bb.intersects(&b) {
            return Some(b);
        }
        i = i + 1;
    }
    None
}

/// One or more adjoining sprite cells with one collision box per visual
/// segment; the character can stand on top or crash into the side.
#[derive(Clone, Debug)]
pub struct Platform {
    pub sheet: Rc<Sheet>,
    pub position: Point,
    pub sprites: Vec<Cell>,
    pub bounding_boxes: Vec<Rect>,
}

/// A collision box translated by `position`.
pub open spec fn spec_offset_rect(b: Rect, position: Point) -> Rect {
    Rect {
        position: Point {
            x: (b.position.x + position.x) as i16,
            y: (b.position.y + position.y) as i16,
        },
        width: b.width,
        height: b.height,
    }
}

/// The right edge of the last box of a template, before translation.
pub open spec fn spec_slice_right(s: Seq<Rect>) -> int {
    if s.len() == 0 {
        0
    } else {
        s.last().spec_right()
    }
}

/// The cells that a list of sprite names resolves to, in order, skipping
/// names the sheet does not know.
pub open spec fn spec_collect_cells(sheet: Sheet, names: Seq<Seq<char>>) -> Seq<Cell>
    decreases names.len(),
{
    if names.len() == 0 {
        Seq::empty()
    } else {
        let rest = spec_collect_cells(sheet, names.drop_first());
        match sheet.spec_cell(names[0]) {
            Some(c) => seq![c] + rest,
            None => rest,
        }
    }
}

impl Platform {
    /// Build a platform from a sprite sheet, a world position, the names
    /// of its visual segments, and its collision-box template.  The boxes
    /// are translated to world coordinates once, here.
    pub fn new(
        sheet: Rc<Sheet>,
        position: Point,
        sprite_names: &[&str],
        bounding_boxes: &[Rect],
    ) -> (r: Platform)
        requires
            bounding_boxes@.len() >= 1,
            0 <= spec_slice_right(bounding_boxes@) <= OBSTACLE_SPAN,
            forall|i: int|
                0 <= i < bounding_boxes@.len() ==> {
                    let b = #[trigger] bounding_boxes@[i];
                    &&& 0 <= b.width <= MAX_BOX_EXTENT
                    &&& 0 <= b.height <= MAX_BOX_EXTENT
                    &&& 0 <= b.position.x
                    &&& b.position.x + b.width <= spec_slice_right(bounding_boxes@)
                    &&& 0 <= b.position.y + position.y <= HEIGHT
                },
            0 <= position.y <= HEIGHT,
            -OBSTACLE_RANGE + OBSTACLE_SPAN <= position.x <= OBSTACLE_RANGE - OBSTACLE_SPAN,
        ensures
            r.wf(),
            r.sheet == sheet,
            r.position == position,
            r.sprites@ == spec_collect_cells(*sheet, sprite_names@.map_values(|n: &str| n@)),
            r.obs_view() == (ObstacleView {
                landable: true,
                boxes: bounding_boxes@.map_values(|b: Rect| spec_offset_rect(b, position)),
                land_y: position.y,
            }),
            spec_view_right(r.obs_view()) == position.x + spec_slice_right(bounding_boxes@),
    {
        let ghost names = sprite_names@.map_values(|n: &str| n@);
        let mut sprites: Vec<Cell> = Vec::new();
        proof {
            assert(names.skip(0) =~= names);
        }
        let mut i: usize = 0;
        while i < sprite_names.len()
            invariant
                0 <= i <= names.len(),
                names == sprite_names@.map_values(|n: &str| n@),
                sprite_names@.len() == names.len(),
                sprites@ + spec_collect_cells(*sheet, names.skip(i as int)) == spec_collect_cells(
                    *sheet,
                    names,
                ),
            decreases names.len() - i,
        {
            proof {
                assert(names.skip(i as int)[0] == names[i as int]);
                assert(names.skip(i as int).drop_first() =~= names.skip(i as int + 1));
            }
            let name: &str = sprite_names[i];
            let ghost prev = sprites@;
            if let Some(cell) = sheet.cell(name) {
                sprites.push(*cell);
            }
            proof {
                assert(sprites@ + spec_collect_cells(*sheet, names.skip(i as int + 1)) =~= prev
                    + spec_collect_cells(*sheet, names.skip(i as int)));
            }
            i = i + 1;
        }
        let ghost template = bounding_boxes@;
        let mut boxes: Vec<Rect> = Vec::new();
        let mut j: usize = 0;
        while j < bounding_boxes.len()
            invariant
                0 <= j <= template.len(),
                template == bounding_boxes@,
                bounding_boxes@.len() == template.len(),
                boxes@.len() == j,
                forall|k: int|
                    0 <= k < j ==> boxes@[k] == spec_offset_rect(#[trigger] template[k], position),
                forall|k: int|
                    0 <= k < template.len() ==> {
                        let b = #[trigger] template[k];
                        &&& 0 <= b.width <= MAX_BOX_EXTENT
                        &&& 0 <= b.height <= MAX_BOX_EXTENT
                        &&& 0 <= b.position.x
                        &&& b.position.x + b.width <= spec_slice_right(template)
                        &&& 0 <= b.position.y + position.y <= HEIGHT
                    },
                0 <= spec_slice_right(template) <= OBSTACLE_SPAN,
                -OBSTACLE_RANGE + OBSTACLE_SPAN <= position.x <= OBSTACLE_RANGE - OBSTACLE_SPAN,
            decreases template.len() - j,
        {
            let b = bounding_boxes[j];
            boxes.push(
                Rect::new_from_x_y(
                    b.x() + position.x,
                    b.y() + position.y,
                    b.width,
                    b.height,
                ),
            );
            j = j + 1;
        }
        let r = Platform { sheet, position, sprites, bounding_boxes: boxes };
        proof {
            assert(r.obs_view().boxes =~= template.map_values(
                |b: Rect| spec_offset_rect(b, position),
            ));
            assert(r.obs_view() =~= (ObstacleView {
                landable: true,
                boxes: template.map_values(|b: Rect| spec_offset_rect(b, position)),
                land_y: position.y,
            }));
            assert(r.obs_view().boxes.last() == spec_offset_rect(
                template[template.len() - 1],
                position,
            ));
            assert(template.last() == template[template.len() - 1]);
            assert forall|k: int| 0 <= k < r.obs_view().boxes.len() implies {
                let b = #[trigger] r.obs_view().boxes[k];
                &&& 0 <= b.width <= MAX_BOX_EXTENT
                &&& 0 <= b.height <= MAX_BOX_EXTENT
                &&& 0 <= b.position.y <= HEIGHT
                &&& spec_view_right(r.obs_view()) - OBSTACLE_SPAN <= b.position.x
                &&& b.position.x + b.width <= spec_view_right(r.obs_view())
            } by {
                assert(r.obs_view().boxes[k] == spec_offset_rect(template[k], position));
            }
        }
        r
    }

    /// The collision boxes, in world coordinates.
    pub fn bounding_boxes(&self) -> (r: &Vec<Rect>)
        ensures
            r@ == self.obs_view().boxes,
    {
        &self.bounding_boxes
    }

    /// Where the platform's visual strip is drawn: three segments wide,
    /// measured from the segment sprite the sheet calls `"13.png"`.
    pub fn destination_box(&self) -> (r: Rect)
        requires
            (*self.sheet).wf(),
            (*self.sheet).spec_cell("13.png"@) is Some,
        ensures
            ({
                let c = (*self.sheet).spec_cell("13.png"@)->0;
                r == (Rect {
                    position: self.position,
                    width: (c.frame.w * 3) as i16,
                    height: c.frame.h,
                })
            }),
    {
        proof {
            (*self.sheet).lemma_cell_bounded("13.png"@);
        }
        let platform = self.sheet.cell("13.png").unwrap();
        Rect::new(self.position, platform.frame.w * 3, platform.frame.h)
    }
}

impl Obstacle for Platform {
    open spec fn wf(&self) -> bool {
        &&& spec_view_wf(self.obs_view())
        &&& self.position.y == self.obs_view().land_y
        &&& spec_view_right(self.obs_view()) - OBSTACLE_SPAN <= self.position.x <= spec_view_right(
            self.obs_view(),
        )
    }

    open spec fn obs_view(&self) -> ObstacleView {
        ObstacleView { landable: true, boxes: self.bounding_boxes@, land_y: self.position.y }
    }

    fn check_intersection(&self, boy: &mut RedHatBoy) {
        proof {
            assert forall|i: int| 0 <= i < self.bounding_boxes@.len() implies (
            #[trigger] self.bounding_boxes@[i]).edges_fit() by {
                assert(self.obs_view().boxes[i] == self.bounding_boxes@[i]);
            }
        }
        let bb = boy.bounding_box();
        if let Some(hit) = first_hit(&self.bounding_boxes, &bb) {
            proof {
                lemma_first_hit_is_member(self.bounding_boxes@, bb);
                let i = choose|i: int|
                    0 <= i < self.bounding_boxes@.len() && self.bounding_boxes@[i]
                        == spec_first_hit(self.bounding_boxes@, bb)->0;
                assert(self.obs_view().boxes[i] == self.bounding_boxes@[i]);
            }
            if boy.velocity_y() > 0 && boy.pos_y() < self.position.y {
                boy.land_on(hit.y());
            } else {
                boy.knock_out();
            }
        }
    }

    fn move_horizontally(&mut self, x: i16)
    {
        proof {
            assert forall|i: int| 0 <= i < self.bounding_boxes@.len() implies i16::MIN <= (
            #[trigger] self.bounding_boxes@[i]).position.x + x <= i16::MAX by {
                assert(self.obs_view().boxes[i] == self.bounding_boxes@[i]);
            }
        }
        self.position.x = self.position.x + x;
        let ghost before = self.bounding_boxes@;
        let mut i: usize = 0;
        while i < self.bounding_boxes.len()
            invariant
                0 <= i <= before.len(),
                self.bounding_boxes@.len() == before.len(),
                forall|j: int|
                    0 <= j < i ==> self.bounding_boxes@[j] == spec_shift_rect(
                        #[trigger] before[j],
                        x,
                    ),
                forall|j: int| i <= j < before.len() ==> self.bounding_boxes@[j] == before[j],
                forall|j: int|
                    0 <= j < before.len() ==> i16::MIN <= (#[trigger] before[j]).position.x + x
                        <= i16::MAX,
                self.position == (Point {
                    x: (old(self).position.x + x) as i16,
                    y: old(self).position.y,
                }),
                self.sheet == old(self).sheet,
                self.sprites == old(self).sprites,
            decreases before.len() - i,
        {
            proof {
                assert(self.bounding_boxes@[i as int] == before[i as int]);
            }
            let mut b = self.bounding_boxes[i];
            b.set_x(b.x() + x);
            self.bounding_boxes.set(i, b);
            i = i + 1;
        }
        proof {
            assert(self.bounding_boxes@ =~= before.map_values(|b: Rect| spec_shift_rect(b, x)));
            assert(self.obs_view() =~= spec_shift_view(old(self).obs_view(), x));
            lemma_shift_view(old(self).obs_view(), x);
        }
    }

    fn right(&self) -> (r: i16) {
        proof {
            assert(self.obs_view().boxes.last() == self.bounding_boxes@[self.bounding_boxes@.len()
                - 1]);
        }
        let n = self.bounding_boxes.len();
        self.bounding_boxes[n - 1].right()
    }
}

/// A single fatal image; any contact knocks the character out.
#[derive(Clone, Copy, Debug, PartialEq, Eq, Structural)]
pub struct Barrier {
    pub image: Image,
}

impl Barrier {
    pub fn new(image: Image) -> (r: Barrier)
        ensures
            r.image == image,
    {
        Barrier { image }
    }
}

impl Obstacle for Barrier {
    open spec fn wf(&self) -> bool {
        spec_view_wf(self.obs_view())
    }

    open spec fn obs_view(&self) -> ObstacleView {
        ObstacleView { landable: false, boxes: seq![self.image.bounding_box], land_y: 0 }
    }

    fn check_intersection(&self, boy: &mut RedHatBoy) {
        proof {
            assert(self.obs_view().boxes[0] == self.image.bounding_box);
        }
        let bb = boy.bounding_box();
        proof {
            let v = self.obs_view();
            if !bb.spec_intersects(&v.boxes[0]) {
                assert(v.boxes.drop_first().len() == 0);
                assert(spec_first_hit(v.boxes.drop_first(), bb) is None);
            }
        }
        if bb.intersects(self.image.bounding_box()) {
            boy.knock_out();
        }
    }

    fn move_horizontally(&mut self, x: i16)
    {
        proof {
            assert(self.obs_view().boxes[0] == self.image.bounding_box);
        }
        self.image.move_horizontally(x);
        proof {
            assert(spec_shift_view(old(self).obs_view(), x).boxes[0] == spec_shift_rect(
                old(self).image.bounding_box,
                x,
            ));
            assert(self.obs_view().boxes =~= spec_shift_view(old(self).obs_view(), x).boxes);
            assert(self.obs_view() =~= spec_shift_view(old(self).obs_view(), x));
            lemma_shift_view(old(self).obs_view(), x);
        }
    }

    fn right(&self) -> (r: i16) {
        proof {
            assert(self.obs_view().boxes[0] == self.image.bounding_box);
        }
        self.image.right()
    }
}

/// The closed union of obstacle kinds the world can hold.
#[derive(Clone, Debug)]
pub enum ObstacleKind {
    Platform(Platform),
    Barrier(Barrier),
}

impl Obstacle for ObstacleKind {
    open spec fn wf(&self) -> bool {
        match *self {
            ObstacleKind::Platform(ref p) => p.wf(),
            ObstacleKind::Barrier(ref b) => b.wf(),
        }
    }

    open spec fn obs_view(&self) -> ObstacleView {
        match *self {
            ObstacleKind::Platform(ref p) => p.obs_view(),
            ObstacleKind::Barrier(ref b) => b.obs_view(),
        }
    }

    fn check_intersection(&self, boy: &mut RedHatBoy) {
        match self {
            ObstacleKind::Platform(p) => p.check_intersection(boy),
            ObstacleKind::Barrier(b) => b.check_intersection(boy),
        }
    }

    fn move_horizontally(&mut self, x: i16)
    {
        match self {
            ObstacleKind::Platform(p) => p.move_horizontally(x),
            ObstacleKind::Barrier(b) => b.move_horizontally(x),
        }
    }

    fn right(&self) -> (r: i16) {
        match self {
            ObstacleKind::Platform(p) => p.right(),
            ObstacleKind::Barrier(b) => b.right(),
        }
    }
}

/// The largest right edge among the obstacles, over a non-empty sequence.
pub open spec fn spec_max_right(s: Seq<ObstacleKind>) -> int
    decreases s.len(),
{
    if s.len() <= 1 {
        spec_view_right(s[0].obs_view())
    } else {
        let first = spec_view_right(s[0].obs_view());
        let rest = spec_max_right(s.drop_first());
        if first >= rest {
            first
        } else {
            rest
        }
    }
}

/// The rightmost extent of a whole obstacle list; zero when it is empty.
pub open spec fn spec_rightmost(s: Seq<ObstacleKind>) -> int {
    if s.len() == 0 {
        0
    } else {
        spec_max_right(s)
    }
}

/// The rightmost extent of the obstacle list, used as the spawn watermark.
pub fn rightmost(obstacle_list: &Vec<ObstacleKind>) -> (r: i16)
    requires
        forall|i: int| 0 <= i < obstacle_list@.len() ==> (#[trigger] obstacle_list@[i]).wf(),
        forall|i: int|
            0 <= i < obstacle_list@.len() ==> -OBSTACLE_RANGE <= spec_view_right(
                (#[trigger] obstacle_list@[i]).obs_view(),
            ) <= OBSTACLE_RANGE,
    ensures
        r == spec_rightmost(obstacle_list@),
{
    if obstacle_list.len() == 0 {
        return 0;
    }
    let mut best: i16 = obstacle_list[0].right();
    let mut i: usize = 1;
    while i < obstacle_list.len()
        invariant
            1 <= i <= obstacle_list@.len(),
            forall|j: int| 0 <= j < obstacle_list@.len() ==> (#[trigger] obstacle_list@[j]).wf(),
            forall|j: int|
                0 <= j < obstacle_list@.len() ==> -OBSTACLE_RANGE <= spec_view_right(
                    (#[trigger] obstacle_list@[j]).obs_view(),
                ) <= OBSTACLE_RANGE,
            best == spec_max_right(obstacle_list@.take(i as int)),
        decreases obstacle_list@.len() - i,
    {
        proof {
            lemma_max_right_step(obstacle_list@, i as int);
        }
        let r = obstacle_list[i].right();
        if r > best {
            best = r;
        }
        i = i + 1;
    }
    proof {
        assert(obstacle_list@.take(obstacle_list@.len() as int) =~= obstacle_list@);
    }
    best
}

/// Extending the prefix by one element takes the maximum with its right
/// edge.
proof fn lemma_max_right_step(s: Seq<ObstacleKind>, i: int)
    requires
        1 <= i < s.len(),
    ensures
        spec_max_right(s.take(i + 1)) == if spec_view_right(s[i].obs_view()) > spec_max_right(
            s.take(i),
        ) {
            spec_view_right(s[i].obs_view())
        } else {
            spec_max_right(s.take(i))
        },
    decreases i,
{
    let ri = spec_view_right(s[i].obs_view());
    let r0 = spec_view_right(s[0].obs_view());
    if i == 1 {
        assert(s.take(2).drop_first() =~= seq![s[1]]);
        assert(s.take(1)[0] == s[0]);
        assert(s.take(2)[0] == s[0]);
        assert(spec_max_right(seq![s[1]]) == ri);
        assert(spec_max_right(s.take(1)) == r0);
        assert(spec_max_right(s.take(2)) == if r0 >= ri {
            r0
        } else {
            ri
        });
    } else {
        lemma_max_right_step(s.drop_first(), i - 1);
        assert(s.take(i + 1).drop_first() =~= s.drop_first().take(i));
        assert(s.take(i).drop_first() =~= s.drop_first().take(i - 1));
        assert(s.take(i + 1)[0] == s[0]);
        assert(s.take(i)[0] == s[0]);
        assert(s.drop_first()[i - 1] == s[i]);
        let rest_long = spec_max_right(s.drop_first().take(i));
        let rest_short = spec_max_right(s.drop_first().take(i - 1));
        assert(spec_max_right(s.take(i + 1)) == if r0 >= rest_long {
            r0
        } else {
            rest_long
        });
        assert(spec_max_right(s.take(i)) == if r0 >= rest_short {
            r0
        } else {
            rest_short
        });
    }
}

} // verus!
