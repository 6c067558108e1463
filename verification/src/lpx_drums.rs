//! Drum sections on the LPX pad grid: rectangles of pads that all show
//! one colour and play one drum.
use vstd::prelude::*;
use crate::text::{decimal, decimal_string};

verus! {

/// The plain values a `Section` holds.
pub struct SectionView {
    pub pad: int,
    pub width: int,
    pub height: int,
    pub main_colour: Seq<int>,
    pub active_colour: Seq<int>,
}

/// Whether a colour's three components are all MIDI data values (at most 127).
pub open spec fn colour_valid(c: Seq<int>) -> bool {
    c.len() == 3 && forall|i: int| 0 <= i < 3 ==> #[trigger] c[i] <= 127
}

/// The constraints on a section: its top left pad lies on the 8x8 grid
/// (pads 11..=88, row and column digits 1..=8), it does not reach past
/// row 8 or column 8 (a single pad has width and height 1), and both
/// colours are valid.
pub open spec fn section_valid(s: SectionView) -> bool {
    let row = s.pad / 10;
    let col = s.pad % 10;
    &&& 11 <= s.pad <= 88
    &&& 1 <= row <= 8
    &&& 1 <= col <= 8
    &&& col + s.width - 1 <= 8
    &&& row + s.height - 1 <= 8
    &&& colour_valid(s.main_colour)
    &&& colour_valid(s.active_colour)
}

/// Whether two sections touch or overlap, counting a section as reaching
/// one pad past its width and height (the grid test the LPX drums use).
pub open spec fn sections_intersect(a: SectionView, b: SectionView) -> bool {
    let ax = a.pad / 10;
    let ay = a.pad % 10;
    let bx = b.pad / 10;
    let by = b.pad % 10;
    !(ay + a.height < by || ay > by + b.height || ax + a.width < bx || ax > bx + b.width)
}

pub open spec fn colour_view(c: [usize; 3]) -> Seq<int> {
    seq![c[0] as int, c[1] as int, c[2] as int]
}

/// A rectangle of pads on the LPX that acts as one drum.
#[derive(Debug, Clone, Copy)]
pub struct Section {
    pad: usize,
    width: usize,
    height: usize,
    main_colour: [usize; 3],
    active_colour: [usize; 3],
}

impl View for Section {
    type V = SectionView;

    closed spec fn view(&self) -> SectionView {
        SectionView {
            pad: self.pad as int,
            width: self.width as int,
            height: self.height as int,
            main_colour: colour_view(self.main_colour),
            active_colour: colour_view(self.active_colour),
        }
    }
}

/// The errors that building a drum layout can give.
#[derive(Debug)]
pub enum LpxDrumError {
    InvalidSection,
    IntersectingSections(Section, Section),
    DuplicateMainColour(Section, Section),
    DuplicateMIDI(Section, Section),
}

fn colour_ok(c: [usize; 3]) -> (r: bool)
    ensures
        r == colour_valid(colour_view(c)),
{
    let r = c[0] <= 127 && c[1] <= 127 && c[2] <= 127;
    assert(r ==> forall|i: int| 0 <= i < 3 ==> #[trigger] colour_view(c)[i] <= 127);
    assert(!r ==> !(colour_view(c)[0] <= 127 && colour_view(c)[1] <= 127 && colour_view(c)[2]
        <= 127));
    r
}

impl Section {
    #[verifier::type_invariant]
    closed spec fn inv(self) -> bool {
        section_valid(self@)
    }

    /// A section with the given top left pad, width, height and colours,
    /// or `InvalidSection` when these break the constraints.
    pub fn new(
        pad: usize,
        width: usize,
        height: usize,
        main_colour: [usize; 3],
        active_colour: [usize; 3],
    ) -> (res: Result<Self, LpxDrumError>)
        ensures
            ({
                let v = SectionView {
                    pad: pad as int,
                    width: width as int,
                    height: height as int,
                    main_colour: colour_view(main_colour),
                    active_colour: colour_view(active_colour),
                };
                &&& res is Ok <==> section_valid(v)
                &&& res matches Ok(s) ==> s@ == v
                &&& res matches Err(e) ==> e is InvalidSection
            }),
    {
        let row = pad / 10;
        let col = pad % 10;
        let ok = !(pad < 11 || pad > 88 || row == 0 || row >= 9 || col == 0 || col >= 9
            || width > 9 - col || height > 9 - row || !colour_ok(main_colour) || !colour_ok(
            active_colour,
        ));
        if ok {
            Ok(Section { pad, width, height, main_colour, active_colour })
        } else {
            Err(LpxDrumError::InvalidSection)
        }
    }

    /// Whether the section meets its constraints; every `Section` does.
    pub fn valid(&self) -> (r: bool)
        ensures
            r == section_valid(self@),
    {
        proof {
            use_type_invariant(self);
        }
        let row = self.row();
        let col = self.col();
        !(self.pad < 11 || self.pad > 88 || row == 0 || row >= 9 || col == 0 || col >= 9
            || col + self.width - 1 > 8 || row + self.height - 1 > 8 || !colour_ok(
            self.main_colour,
        ) || !colour_ok(self.active_colour))
    }

    /// Whether this section and `other` touch or overlap.
    pub fn intersect(&self, other: &Self) -> (r: bool)
        ensures
            r == sections_intersect(self@, other@),
    {
        proof {
            use_type_invariant(self);
            use_type_invariant(other);
        }
        let self_x = self.pad / 10;
        let self_y = self.pad % 10;
        let other_x = other.pad / 10;
        let other_y = other.pad % 10;
        !(self_y + self.height < other_y || self_y > other_y + other.height || self_x
            + self.width < other_x || self_x > other_x + other.width)
    }

    /// The row digit of the top left pad.
    pub fn row(&self) -> (r: usize)
        ensures
            r == self@.pad / 10,
    {
        self.pad / 10
    }

    /// The column digit of the top left pad.
    pub fn col(&self) -> (r: usize)
        ensures
            r == self@.pad % 10,
    {
        self.pad % 10
    }

    pub fn pad(&self) -> (r: usize)
        ensures
            r == self@.pad,
    {
        self.pad
    }

    pub fn width(&self) -> (r: usize)
        ensures
            r == self@.width,
    {
        self.width
    }

    pub fn height(&self) -> (r: usize)
        ensures
            r == self@.height,
    {
        self.height
    }

    pub fn main_colour(&self) -> (r: [usize; 3])
        ensures
            colour_view(r) == self@.main_colour,
    {
        self.main_colour
    }

    pub fn active_colour(&self) -> (r: [usize; 3])
        ensures
            colour_view(r) == self@.active_colour,
    {
        self.active_colour
    }

    /// The text the section shows itself as.
    pub fn describe(&self) -> (res: String)
        ensures
            res@ == section_text(self@),
    {
        let mut s: String = "Section - Pad: ".to_owned();
        s.append(decimal_string(self.pad as u64).as_str());
        s.append(", Width: ");
        s.append(decimal_string(self.width as u64).as_str());
        s.append(", Height: ");
        s.append(decimal_string(self.height as u64).as_str());
        s.append(", Main Colour:[");
        s.append(decimal_string(self.main_colour[0] as u64).as_str());
        s.append(", ");
        s.append(decimal_string(self.main_colour[1] as u64).as_str());
        s.append(", ");
        s.append(decimal_string(self.main_colour[2] as u64).as_str());
        s.append("], Active Colour: [");
        s.append(decimal_string(self.active_colour[0] as u64).as_str());
        s.append(", ");
        s.append(decimal_string(self.active_colour[1] as u64).as_str());
        s.append(", ");
        s.append(decimal_string(self.active_colour[2] as u64).as_str());
        s.append("]");
        s
    }
}

/// The text a section shows itself as.
pub open spec fn section_text(v: SectionView) -> Seq<char> {
    "Section - Pad: "@ + decimal(v.pad as nat) + ", Width: "@ + decimal(v.width as nat)
        + ", Height: "@ + decimal(v.height as nat) + ", Main Colour:["@ + decimal(
        v.main_colour[0] as nat,
    ) + ", "@ + decimal(v.main_colour[1] as nat) + ", "@ + decimal(v.main_colour[2] as nat)
        + "], Active Colour: ["@ + decimal(v.active_colour[0] as nat) + ", "@ + decimal(
        v.active_colour[1] as nat,
    ) + ", "@ + decimal(v.active_colour[2] as nat) + "]"@
}

/// The text an error shows itself as.
pub open spec fn error_text(e: LpxDrumError) -> Seq<char> {
    match e {
        LpxDrumError::InvalidSection => "invalid section"@,
        LpxDrumError::IntersectingSections(a, b) => "intersecting sections: "@ + section_text(a@)
            + " "@ + section_text(b@),
        LpxDrumError::DuplicateMainColour(a, b) => "duplicate main colour: "@ + section_text(a@)
            + " "@ + section_text(b@),
        LpxDrumError::DuplicateMIDI(a, b) => "duplicate MIDI: "@ + section_text(a@) + " "@
            + section_text(b@),
    }
}

impl LpxDrumError {
    /// The text the error shows itself as.
    pub fn describe(&self) -> (res: String)
        ensures
            res@ == error_text(*self),
    {
        match self {
            LpxDrumError::InvalidSection => "invalid section".to_owned(),
            LpxDrumError::IntersectingSections(a, b) => {
                let mut s: String = "intersecting sections: ".to_owned();
                s.append(a.describe().as_str());
                s.append(" ");
                s.append(b.describe().as_str());
                s
            },
            LpxDrumError::DuplicateMainColour(a, b) => {
                let mut s: String = "duplicate main colour: ".to_owned();
                s.append(a.describe().as_str());
                s.append(" ");
                s.append(b.describe().as_str());
                s
            },
            LpxDrumError::DuplicateMIDI(a, b) => {
                let mut s: String = "duplicate MIDI: ".to_owned();
                s.append(a.describe().as_str());
                s.append(" ");
                s.append(b.describe().as_str());
                s
            },
        }
    }
}

/// Every pad of the 8x8 grid (row and column digits 1 to 8) can be the
/// top left pad of a section that stays on the grid (a 1x1 section
/// always does), with colours of components at most 127; a pad off the
/// grid never can.
pub proof fn lemma_grid_pads_make_sections(
    pad: int,
    width: int,
    height: int,
    main_colour: Seq<int>,
    active_colour: Seq<int>,
)
    ensures
        ({
            let s = SectionView { pad, width, height, main_colour, active_colour };
            let on_grid = 0 <= pad && 1 <= pad / 10 <= 8 && 1 <= pad % 10 <= 8;
            let colours_ok = main_colour.len() == 3 && active_colour.len() == 3
                && (forall|i: int| 0 <= i < 3 ==> main_colour[i] <= 127 && active_colour[i] <= 127);
            &&& on_grid && pad % 10 + width <= 9 && pad / 10 + height <= 9 && colours_ok
                ==> section_valid(s)
            &&& on_grid && width == 1 && height == 1 && colours_ok ==> section_valid(s)
            &&& !on_grid ==> !section_valid(s)
        }),
{
}

/// Two sections intersect in either order.
pub proof fn lemma_intersect_symmetric(a: SectionView, b: SectionView)
    ensures
        sections_intersect(a, b) == sections_intersect(b, a),
{
}

/// Every section with non-negative size intersects itself.
pub proof fn lemma_intersect_reflexive(a: SectionView)
    requires
        a.width >= 0,
        a.height >= 0,
    ensures
        sections_intersect(a, a),
{
}

} // verus!
