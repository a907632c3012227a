//! The fixed obstacle template the spawner appends: a stone barrier on the
//! ground followed by a floating three-segment platform.

use std::rc::Rc;

use vstd::prelude::*;

use crate::geometry::Point;
use crate::geometry::Rect;
use crate::obstacle::Barrier;
use crate::obstacle::Image;
use crate::obstacle::Obstacle;
use crate::obstacle::ObstacleKind;
use crate::obstacle::ObstacleView;
use crate::obstacle::Platform;
use crate::obstacle::spec_offset_rect;
use crate::obstacle::spec_view_right;
use crate::sprite::Sheet;

verus! {

/// Vertical position of a stone resting on the ground.
pub const STONE_ON_GROUND: i16 = 546;

/// Vertical position of a low floating platform.
pub const LOW_PLATFORM: i16 = 420;

/// Horizontal offset of the stone inside the segment.
pub const INITIAL_STONE_OFFSET: i16 = 150;

/// Horizontal offset of the platform inside the segment.
pub const FIRST_PLATFORM: i16 = 370;

/// Total width of the three-segment platform strip.
pub const PLATFORM_WIDTH: i16 = 384;

/// Height of the platform strip.
pub const PLATFORM_HEIGHT: i16 = 93;

/// Width of the platform's left and right edge segments.
pub const PLATFORM_EDGE_WIDTH: i16 = 60;

/// Height of the walkable surface on the edge segments.
pub const PLATFORM_EDGE_HEIGHT: i16 = 54;

/// Largest width or height a stone image may have here.
pub const MAX_STONE_EXTENT: i16 = 600;

/// The collision-box template of the floating platform, relative to its
/// anchor: a low edge, a tall middle, a low edge.
pub open spec fn spec_platform_boxes() -> Seq<Rect> {
    seq![
        Rect {
            position: Point { x: 0, y: 0 },
            width: PLATFORM_EDGE_WIDTH,
            height: PLATFORM_EDGE_HEIGHT,
        },
        Rect {
            position: Point { x: PLATFORM_EDGE_WIDTH, y: 0 },
            width: (PLATFORM_WIDTH - 2 * PLATFORM_EDGE_WIDTH) as i16,
            height: PLATFORM_HEIGHT,
        },
        Rect {
            position: Point { x: (PLATFORM_WIDTH - PLATFORM_EDGE_WIDTH) as i16, y: 0 },
            width: PLATFORM_EDGE_WIDTH,
            height: PLATFORM_EDGE_HEIGHT,
        },
    ]
}

/// The view of the stone barrier of a segment anchored at `offset_x`.
pub open spec fn spec_segment_stone_view(
    offset_x: i16,
    stone_width: i16,
    stone_height: i16,
) -> ObstacleView {
    ObstacleView {
        landable: false,
        boxes: seq![
            Rect {
                position: Point { x: (offset_x + INITIAL_STONE_OFFSET) as i16, y: STONE_ON_GROUND },
                width: stone_width,
                height: stone_height,
            },
        ],
        land_y: 0,
    }
}

/// The view of the floating platform of a segment anchored at `offset_x`.
pub open spec fn spec_segment_platform_view(offset_x: i16) -> ObstacleView {
    ObstacleView {
        landable: true,
        boxes: spec_platform_boxes().map_values(
            |b: Rect|
                spec_offset_rect(
                    b,
                    Point { x: (offset_x + FIRST_PLATFORM) as i16, y: LOW_PLATFORM },
                ),
        ),
        land_y: LOW_PLATFORM,
    }
}

/// Build the next obstacle group: a stone barrier followed by a floating
/// platform, both anchored at `offset_x`.  The stone's extent comes from
/// its image; the platform's sprites come from the shared obstacle sheet.
pub fn stone_and_platform(
    stone_width: i16,
    stone_height: i16,
    sprite_sheet: Rc<Sheet>,
    offset_x: i16,
) -> (r: Vec<ObstacleKind>)
    requires
        0 <= stone_width <= MAX_STONE_EXTENT,
        0 <= stone_height <= MAX_STONE_EXTENT,
        -2000 <= offset_x <= 2000,
    ensures
        r@.len() == 2,
        forall|i: int| 0 <= i < r@.len() ==> (#[trigger] r@[i]).wf(),
        r@[0].obs_view() == spec_segment_stone_view(offset_x, stone_width, stone_height),
        r@[1].obs_view() == spec_segment_platform_view(offset_x),
        spec_view_right(r@[0].obs_view()) == offset_x + INITIAL_STONE_OFFSET + stone_width,
        spec_view_right(r@[1].obs_view()) == offset_x + FIRST_PLATFORM + PLATFORM_WIDTH,
{
    let stone = ObstacleKind::Barrier(
        Barrier::new(
            Image::new(
                Point { x: offset_x + INITIAL_STONE_OFFSET, y: STONE_ON_GROUND },
                stone_width,
                stone_height,
            ),
        ),
    );
    let template: [Rect; 3] = [
        Rect::new_from_x_y(0, 0, PLATFORM_EDGE_WIDTH, PLATFORM_EDGE_HEIGHT),
        Rect::new_from_x_y(
            PLATFORM_EDGE_WIDTH,
            0,
            PLATFORM_WIDTH - 2 * PLATFORM_EDGE_WIDTH,
            PLATFORM_HEIGHT,
        ),
        Rect::new_from_x_y(
            PLATFORM_WIDTH - PLATFORM_EDGE_WIDTH,
            0,
            PLATFORM_EDGE_WIDTH,
            PLATFORM_EDGE_HEIGHT,
        ),
    ];
    let sprite_names: [&str; 3] = ["13.png", "14.png", "15.png"];
    proof {
        assert(template@ =~= spec_platform_boxes());
    }
    let platform = ObstacleKind::Platform(
        Platform::new(
            sprite_sheet,
            Point { x: offset_x + FIRST_PLATFORM, y: LOW_PLATFORM },
            sprite_names.as_slice(),
            template.as_slice(),
        ),
    );
    let mut obstacles: Vec<ObstacleKind> = Vec::new();
    obstacles.push(stone);
    obstacles.push(platform);
    proof {
        assert(obstacles@[0].obs_view() =~= spec_segment_stone_view(
            offset_x,
            stone_width,
            stone_height,
        ));
        assert(obstacles@[1].obs_view() =~= spec_segment_platform_view(offset_x));
        assert(obstacles@[1].obs_view().boxes.last() == spec_offset_rect(
            spec_platform_boxes()[2],
            Point { x: (offset_x + FIRST_PLATFORM) as i16, y: LOW_PLATFORM },
        ));
    }
    obstacles
}

} // verus!
