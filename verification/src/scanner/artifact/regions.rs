//! Where the texts of an artifact card are, at the base resolution.
use crate::scanner::common::ocr::BaseRect;
use vstd::prelude::*;

verus! {

/// The rectangles of the texts.
#[derive(Debug, Clone, Copy)]
pub struct ArtifactOcrRegions {
    pub part_name: BaseRect,
    pub main_stat: BaseRect,
    pub level: BaseRect,
    /// One rectangle per substat line; the last is wider, for the note of
    /// substats that are not yet activated.
    pub substat_lines: [BaseRect; 4],
    pub set_name_x: i32,
    pub set_name_w: i32,
    pub set_name_base_y: i32,
    pub set_name_h: i32,
    pub equip: BaseRect,
}

/// The substat lines.
pub open spec fn standard_lines() -> Seq<BaseRect> {
    seq![
        (1356i32, 478i32, 255i32, 35i32),
        (1356i32, 513i32, 255i32, 37i32),
        (1356i32, 550i32, 255i32, 39i32),
        (1356i32, 589i32, 355i32, 39i32),
    ]
}

impl ArtifactOcrRegions {
    /// The rectangles of the card.
    pub open spec fn standard(&self) -> bool {
        &&& self.part_name == (1327i32, 184i32, 155i32, 40i32)
        &&& self.main_stat == (1327i32, 266i32, 155i32, 35i32)
        &&& self.level == (1332i32, 425i32, 70i32, 35i32)
        &&& self.substat_lines@ == standard_lines()
        &&& self.set_name_x == 1330
        &&& self.set_name_w == 280
        &&& self.set_name_base_y == 625
        &&& self.set_name_h == 45
        &&& self.equip == (1386i32, 905i32, 315i32, 50i32)
    }

    /// The rectangles of the card.
    pub fn new() -> (r: Self)
        ensures
            r.standard(),
    {
        let lines: [BaseRect; 4] = [
            (1356, 478, 255, 35),
            (1356, 513, 255, 37),
            (1356, 550, 255, 39),
            (1356, 589, 355, 39),
        ];
        assert(lines@ =~= standard_lines());
        ArtifactOcrRegions {
            part_name: (1327, 184, 155, 40),
            main_stat: (1327, 266, 155, 35),
            level: (1332, 425, 70, 35),
            substat_lines: lines,
            set_name_x: 1330,
            set_name_w: 280,
            set_name_base_y: 625,
            set_name_h: 45,
            equip: (1386, 905, 315, 50),
        }
    }
}

/// The rectangle, moved down.
pub fn shifted(rect: BaseRect, y_shift: i32) -> (r: BaseRect)
    requires
        i32::MIN <= rect.1 + y_shift <= i32::MAX,
    ensures
        r == (rect.0, (rect.1 + y_shift) as i32, rect.2, rect.3),
{
    (rect.0, rect.1 + y_shift, rect.2, rect.3)
}

} // verus!
