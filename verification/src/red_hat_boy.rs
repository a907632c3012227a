//! The playable character: the state machine paired with its sprite sheet.
//!
//! The sprite for a tick is named `"{label} ({frame / 3 + 1}).png"`, so each
//! displayed sprite persists for three simulation ticks.  A missing sprite
//! cell would be an unrecoverable mismatch between the animation tables and
//! the sheet, so the boy is only built from a sheet that `sheet_complete`
//! has accepted: then every name a well-formed machine can produce
//! resolves, and the collision geometry below never fails.

use vstd::prelude::*;

use crate::character::Event;
use crate::character::FALLING_FRAMES;
use crate::character::HEIGHT;
use crate::character::IDLE_FRAMES;
use crate::character::JUMPING_FRAMES;
use crate::character::RUNNING_FRAMES;
use crate::character::RedHatBoyState;
use crate::character::RedHatBoyStateMachine;
use crate::character::SLIDING_FRAMES;
use crate::geometry::Point;
use crate::geometry::Rect;
use crate::sprite::Cell;
use crate::sprite::MAX_CELL_EXTENT;
use crate::sprite::Sheet;
use crate::sprite::spec_cell_bounded;

verus! {

/// How far the collision box is inset from the left of the sprite box.
pub const BOUNDING_BOX_X_OFFSET: i16 = 18;

/// How far the collision box is inset from the top of the sprite box.
pub const BOUNDING_BOX_Y_OFFSET: i16 = 14;

/// How much narrower the collision box is than the sprite box.
pub const BOUNDING_BOX_W_OFFSET: i16 = 28;

/// The sprite index displayed for animation frame `f`: frames advance
/// three ticks per displayed sprite, and sheets number sprites from one.
pub open spec fn spec_frame_index(f: u8) -> u8 {
    (f as int / 3 + 1) as u8
}

/// The decimal label of a sprite index between 1 and 12.
pub open spec fn spec_index_label(i: u8) -> Seq<char> {
    if i == 1 {
        "1"@
    } else if i == 2 {
        "2"@
    } else if i == 3 {
        "3"@
    } else if i == 4 {
        "4"@
    } else if i == 5 {
        "5"@
    } else if i == 6 {
        "6"@
    } else if i == 7 {
        "7"@
    } else if i == 8 {
        "8"@
    } else if i == 9 {
        "9"@
    } else if i == 10 {
        "10"@
    } else if i == 11 {
        "11"@
    } else if i == 12 {
        "12"@
    } else {
        Seq::empty()
    }
}

fn index_label(i: u8) -> (r: &'static str)
    requires
        1 <= i <= 12,
    ensures
        r@ == spec_index_label(i),
{
    if i == 1 {
        "1"
    } else if i == 2 {
        "2"
    } else if i == 3 {
        "3"
    } else if i == 4 {
        "4"
    } else if i == 5 {
        "5"
    } else if i == 6 {
        "6"
    } else if i == 7 {
        "7"
    } else if i == 8 {
        "8"
    } else if i == 9 {
        "9"
    } else if i == 10 {
        "10"
    } else if i == 11 {
        "11"
    } else {
        "12"
    }
}

/// The full sprite name for an animation label and a sprite index:
/// `"{label} ({index}).png"`.
pub open spec fn spec_display_name(label: Seq<char>, index: u8) -> Seq<char> {
    label + " ("@ + spec_index_label(index) + ").png"@
}

/// Build the sprite name for an animation label and a sprite index.
pub fn display_name(label: &str, index: u8) -> (r: String)
    requires
        1 <= index <= 12,
    ensures
        r@ == spec_display_name(label@, index),
{
    let mut s = String::from_str(label);
    s.append(" (");
    s.append(index_label(index));
    s.append(").png");
    s
}

/// Every sprite name the animation `label` can produce over `frames`
/// animation frames resolves in the sheet.
pub open spec fn spec_sheet_has_animation(sheet: &Sheet, label: Seq<char>, frames: u8) -> bool {
    forall|f: u8|
        f < frames ==> (#[trigger] sheet.spec_cell(
            spec_display_name(label, spec_frame_index(f)),
        )) is Some
}

/// Every sprite name any well-formed machine state can produce resolves in
/// the sheet.
pub open spec fn spec_sheet_complete(sheet: &Sheet) -> bool {
    &&& spec_sheet_has_animation(sheet, "Idle"@, IDLE_FRAMES)
    &&& spec_sheet_has_animation(sheet, "Run"@, RUNNING_FRAMES)
    &&& spec_sheet_has_animation(sheet, "Slide"@, SLIDING_FRAMES)
    &&& spec_sheet_has_animation(sheet, "Jump"@, JUMPING_FRAMES)
    &&& spec_sheet_has_animation(sheet, "Dead"@, FALLING_FRAMES)
}

fn sheet_has_animation(sheet: &Sheet, label: &str, frames: u8) -> (r: bool)
    requires
        frames <= 36,
    ensures
        r == spec_sheet_has_animation(sheet, label@, frames),
{
    let mut f: u8 = 0;
    while f < frames
        invariant
            0 <= f <= frames,
            frames <= 36,
            forall|g: u8|
                g < f ==> (#[trigger] sheet.spec_cell(
                    spec_display_name(label@, spec_frame_index(g)),
                )) is Some,
        decreases frames - f,
    {
        let name = display_name(label, f / 3 + 1);
        if sheet.cell(name.as_str()).is_none() {
            proof {
                assert(name@ == spec_display_name(label@, spec_frame_index(f)));
                assert(sheet.spec_cell(spec_display_name(label@, spec_frame_index(f))) is None);
            }
            return false;
        }
        f = f + 1;
    }
    true
}

/// Decide whether a sheet holds every sprite the character can ever ask
/// for.  Build a `RedHatBoy` only from a sheet this accepts.
pub fn sheet_complete(sheet: &Sheet) -> (r: bool)
    ensures
        r == spec_sheet_complete(sheet),
{
    sheet_has_animation(sheet, "Idle", IDLE_FRAMES) && sheet_has_animation(
        sheet,
        "Run",
        RUNNING_FRAMES,
    ) && sheet_has_animation(sheet, "Slide", SLIDING_FRAMES) && sheet_has_animation(
        sheet,
        "Jump",
        JUMPING_FRAMES,
    ) && sheet_has_animation(sheet, "Dead", FALLING_FRAMES)
}

/// The sprite name a machine state asks for.
pub open spec fn spec_frame_name_of(m: RedHatBoyStateMachine) -> Seq<char> {
    spec_display_name(m.spec_frame_label(), spec_frame_index(m.spec_context().frame))
}

/// The sheet cell a machine state resolves to.
pub open spec fn spec_current_sprite_of(m: RedHatBoyStateMachine, sheet: Sheet) -> Option<Cell> {
    sheet.spec_cell(spec_frame_name_of(m))
}

/// Where the current sprite is drawn: the machine's position offset by the
/// sprite's trim offsets, with the sprite's extent.
pub open spec fn spec_destination_box_of(m: RedHatBoyStateMachine, sheet: Sheet) -> Rect {
    let sprite = spec_current_sprite_of(m, sheet)->0;
    let c = m.spec_context();
    Rect {
        position: Point {
            x: (c.position.x + sprite.sprite_source_size.x) as i16,
            y: (c.position.y + sprite.sprite_source_size.y) as i16,
        },
        width: sprite.frame.w,
        height: sprite.frame.h,
    }
}

/// The collision box: the destination box shrunk by fixed offsets, so near
/// misses at the sprite border do not count as contact.
pub open spec fn spec_bounding_box_of(m: RedHatBoyStateMachine, sheet: Sheet) -> Rect {
    let d = spec_destination_box_of(m, sheet);
    Rect {
        position: Point {
            x: (d.position.x + BOUNDING_BOX_X_OFFSET) as i16,
            y: (d.position.y + BOUNDING_BOX_Y_OFFSET) as i16,
        },
        width: (d.width - BOUNDING_BOX_W_OFFSET) as i16,
        height: (d.height - BOUNDING_BOX_Y_OFFSET) as i16,
    }
}

/// The playable character: its state machine plus the sheet that names and
/// measures its sprites.
#[derive(Clone, Debug)]
pub struct RedHatBoy {
    pub state_machine: RedHatBoyStateMachine,
    pub sprite_sheet: Sheet,
}

impl RedHatBoy {
    pub open spec fn wf(&self) -> bool {
        &&& self.state_machine.wf()
        &&& self.sprite_sheet.wf()
        &&& spec_sheet_complete(&self.sprite_sheet)
    }

    /// The sprite name of the current tick.
    pub open spec fn spec_frame_name(&self) -> Seq<char> {
        spec_frame_name_of(self.state_machine)
    }

    /// The sheet cell of the current tick; resolves whenever `wf` holds.
    pub open spec fn spec_current_sprite(&self) -> Option<Cell> {
        spec_current_sprite_of(self.state_machine, self.sprite_sheet)
    }

    /// Where the current sprite is drawn.
    pub open spec fn spec_destination_box(&self) -> Rect {
        spec_destination_box_of(self.state_machine, self.sprite_sheet)
    }

    /// The collision box of the character.
    pub open spec fn spec_bounding_box(&self) -> Rect {
        spec_bounding_box_of(self.state_machine, self.sprite_sheet)
    }

    /// Build the character, idle at its starting point.  The sheet must
    /// have passed `sheet_complete`.
    pub fn new(sheet: Sheet) -> (r: RedHatBoy)
        requires
            sheet.wf(),
            spec_sheet_complete(&sheet),
        ensures
            r.wf(),
            r.state_machine == RedHatBoyStateMachine::Idle(
                RedHatBoyState::<crate::character::Idle>::spec_initial(),
            ),
            r.sprite_sheet == sheet,
    {
        RedHatBoy {
            state_machine: RedHatBoyStateMachine::Idle(RedHatBoyState::new()),
            sprite_sheet: sheet,
        }
    }

    pub fn frame_name(&self) -> (r: String)
        requires
            self.wf(),
        ensures
            r@ == self.spec_frame_name(),
    {
        display_name(self.state_machine.frame_name(), self.state_machine.context().frame / 3 + 1)
    }

    pub fn current_sprite(&self) -> (r: Option<&Cell>)
        requires
            self.wf(),
        ensures
            r matches Some(c) && self.spec_current_sprite() == Some(*c),
    {
        proof {
            self.lemma_current_sprite_resolves();
        }
        let name = self.frame_name();
        let r = self.sprite_sheet.cell(name.as_str());
        r
    }

    /// A well-formed boy's current sprite always resolves, and is bounded.
    pub proof fn lemma_current_sprite_resolves(&self)
        requires
            self.wf(),
        ensures
            self.spec_current_sprite() is Some,
            spec_cell_bounded(self.spec_current_sprite()->0),
    {
        crate::character::lemma_frame_in_range(self.state_machine);
        assert(self.spec_current_sprite() is Some);
        self.sprite_sheet.lemma_cell_bounded(self.spec_frame_name());
    }

    pub fn destination_box(&self) -> (r: Rect)
        requires
            self.wf(),
        ensures
            r == self.spec_destination_box(),
    {
        proof {
            self.lemma_current_sprite_resolves();
        }
        let sprite_opt = self.current_sprite();
        let sprite = *sprite_opt.unwrap();
        let context = self.state_machine.context();
        Rect::new_from_x_y(
            context.position.x + sprite.sprite_source_size.x,
            context.position.y + sprite.sprite_source_size.y,
            sprite.frame.w,
            sprite.frame.h,
        )
    }

    pub fn bounding_box(&self) -> (r: Rect)
        requires
            self.wf(),
        ensures
            r == self.spec_bounding_box(),
            r.edges_fit(),
    {
        proof {
            self.lemma_current_sprite_resolves();
        }
        let mut bounding_box = self.destination_box();
        bounding_box.set_x(bounding_box.x() + BOUNDING_BOX_X_OFFSET);
        bounding_box.width = bounding_box.width - BOUNDING_BOX_W_OFFSET;
        bounding_box.set_y(bounding_box.y() + BOUNDING_BOX_Y_OFFSET);
        bounding_box.height = bounding_box.height - BOUNDING_BOX_Y_OFFSET;
        bounding_box
    }

    pub fn pos_y(&self) -> (r: i16)
        ensures
            r == self.state_machine.spec_context().position.y,
    {
        self.state_machine.context().position.y
    }

    pub fn velocity_y(&self) -> (r: i16)
        ensures
            r == self.state_machine.spec_context().velocity.y,
    {
        self.state_machine.context().velocity.y
    }

    /// Horizontal speed of the character, which the world scrolls by.
    pub fn walk_speed(&self) -> (r: i16)
        ensures
            r == self.state_machine.spec_context().velocity.x,
    {
        self.state_machine.context().velocity.x
    }

    pub fn update(&mut self)
        requires
            old(self).wf(),
        ensures
            final(self).wf(),
            final(self).sprite_sheet == old(self).sprite_sheet,
            final(self).state_machine == old(self).state_machine.spec_transition(Event::Update),
    {
        self.state_machine = self.state_machine.update();
    }

    pub fn run_right(&mut self)
        requires
            old(self).wf(),
        ensures
            final(self).wf(),
            final(self).sprite_sheet == old(self).sprite_sheet,
            final(self).state_machine == old(self).state_machine.spec_transition(Event::Run),
    {
        self.state_machine = self.state_machine.transition(Event::Run);
    }

    pub fn slide(&mut self)
        requires
            old(self).wf(),
        ensures
            final(self).wf(),
            final(self).sprite_sheet == old(self).sprite_sheet,
            final(self).state_machine == old(self).state_machine.spec_transition(Event::Slide),
    {
        self.state_machine = self.state_machine.transition(Event::Slide);
    }

    pub fn jump(&mut self)
        requires
            old(self).wf(),
        ensures
            final(self).wf(),
            final(self).sprite_sheet == old(self).sprite_sheet,
            final(self).state_machine == old(self).state_machine.spec_transition(Event::Jump),
    {
        self.state_machine = self.state_machine.transition(Event::Jump);
    }

    pub fn knock_out(&mut self)
        requires
            old(self).wf(),
        ensures
            final(self).wf(),
            final(self).sprite_sheet == old(self).sprite_sheet,
            final(self).state_machine == old(self).state_machine.spec_transition(Event::KnockOut),
    {
        self.state_machine = self.state_machine.transition(Event::KnockOut);
    }

    pub fn land_on(&mut self, position: i16)
        requires
            old(self).wf(),
            0 <= position <= HEIGHT,
        ensures
            final(self).wf(),
            final(self).sprite_sheet == old(self).sprite_sheet,
            final(self).state_machine == old(self).state_machine.spec_transition(
                Event::Land(position),
            ),
    {
        self.state_machine = self.state_machine.transition(Event::Land(position));
    }
}

} // verus!
