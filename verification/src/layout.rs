use vstd::prelude::*;

verus! {

/// A rectangle of terminal cells.
#[derive(Clone, Copy, Debug, PartialEq, Eq, Structural)]
pub struct Rect {
    pub x: u16,
    pub y: u16,
    pub width: u16,
    pub height: u16,
}

/// The offset that centers a span of `inner` cells in one of `outer` cells
/// (the inner span no longer than the outer).
pub open spec fn centered_offset(inner: u16, outer: u16) -> int {
    (outer - inner) / 2
}

/// The smaller of two sizes.
pub open spec fn min_u16(a: u16, b: u16) -> u16 {
    if a <= b {
        a
    } else {
        b
    }
}

/// The rectangle of at most `w` by `h` cells centered in `r`, as
/// `centered_rect` computes it.
pub open spec fn spec_centered(w: u16, h: u16, r: Rect) -> Rect {
    let width = min_u16(w, r.width);
    let height = min_u16(h, r.height);
    Rect {
        x: (r.x + centered_offset(width, r.width)) as u16,
        y: (r.y + centered_offset(height, r.height)) as u16,
        width,
        height,
    }
}

/// Whether the rectangle centered in `r` has coordinates that fit in a `u16`.
pub open spec fn centering_fits(w: u16, h: u16, r: Rect) -> bool {
    &&& r.x + centered_offset(min_u16(w, r.width), r.width) <= u16::MAX
    &&& r.y + centered_offset(min_u16(h, r.height), r.height) <= u16::MAX
}

/// The rectangle of `w` by `h` cells centered in `r`, shrunk to fit in it.
pub fn center(w: u16, h: u16, r: Rect) -> (c: Rect)
    requires
        centering_fits(w, h, r),
    ensures
        c == spec_centered(w, h, r),
{
    Rect {
        x: r.x + r.width.saturating_sub(w.min(r.width)) / 2,
        y: r.y + r.height.saturating_sub(h.min(r.height)) / 2,
        width: w.min(r.width),
        height: h.min(r.height),
    }
}

/// The rectangle of `width` by `height` cells centered in `area`, shrunk to
/// fit in it.
pub fn centered_rect(width: u16, height: u16, area: Rect) -> (c: Rect)
    requires
        centering_fits(width, height, area),
    ensures
        c == spec_centered(width, height, area),
{
    let width = width.min(area.width);
    let height = height.min(area.height);
    Rect {
        x: area.x + area.width.saturating_sub(width) / 2,
        y: area.y + area.height.saturating_sub(height) / 2,
        width,
        height,
    }
}

/// A centered rectangle lies inside the rectangle it is centered in, with
/// margins on both sides that differ by at most one cell.
pub proof fn lemma_centered_inside(w: u16, h: u16, r: Rect)
    requires
        centering_fits(w, h, r),
    ensures
        ({
            let c = spec_centered(w, h, r);
            &&& r.x <= c.x
            &&& c.x + c.width <= r.x + r.width
            &&& r.y <= c.y
            &&& c.y + c.height <= r.y + r.height
            &&& 0 <= (r.x + r.width - (c.x + c.width)) - (c.x - r.x) <= 1
            &&& 0 <= (r.y + r.height - (c.y + c.height)) - (c.y - r.y) <= 1
            &&& c.width == w || c.width == r.width
            &&& c.height == h || c.height == r.height
        }),
{
}

/// What the game camera renders at: a size in pixels, and whether it must
/// still be fitted to the terminal.
#[derive(Clone, Copy, Debug, PartialEq, Eq, Structural)]
pub struct CameraSize {
    pub autoresize: bool,
    pub width: u32,
    pub height: u32,
}

/// The pixel size that fills a terminal area of `width` by `height` cells
/// with braille characters (2 by 4 dots per cell), at least one pixel.
pub open spec fn braille_pixels(width: u16, height: u16) -> (u32, u32) {
    (
        if width * 2 >= 1 { (width * 2) as u32 } else { 1 },
        if height * 4 >= 1 { (height * 4) as u32 } else { 1 },
    )
}

impl CameraSize {
    /// Fits the camera to a terminal area of `width` by `height` cells; it no
    /// longer needs fitting afterwards.
    pub fn fit_to(&mut self, width: u16, height: u16)
        ensures
            !final(self).autoresize,
            (final(self).width, final(self).height) == braille_pixels(width, height),
    {
        let w = (width as u32 * 2).max(1);
        let h = (height as u32 * 4).max(1);
        if self.autoresize || self.width != w || self.height != h {
            self.autoresize = false;
            self.width = w;
            self.height = h;
        }
    }
}


/// A size rule for one part of a layout, as in `ratatui`.
#[derive(Clone, Copy, Debug, PartialEq, Eq, Structural)]
pub enum Constraint {
    /// At least this many cells.
    Min(u16),
    /// Exactly this many cells.
    Length(u16),
    /// A share of the space that is left, in proportion to the weight.
    Fill(u16),
}

/// `area` as `ratatui`'s `Rect::new` keeps it: the width and height cut so
/// that the rectangle ends within the `u16` coordinates.
pub open spec fn fitted(area: Rect) -> Rect {
    Rect {
        x: area.x,
        y: area.y,
        width: if area.x + area.width <= u16::MAX {
            area.width
        } else {
            (u16::MAX - area.x) as u16
        },
        height: if area.y + area.height <= u16::MAX {
            area.height
        } else {
            (u16::MAX - area.y) as u16
        },
    }
}

/// A row of `area` (as `fitted` keeps it): the full width of the area, and
/// a span of its rows.
pub open spec fn row_of(part: Rect, area: Rect) -> bool {
    let a = fitted(area);
    &&& part.x == a.x
    &&& part.width == a.width
    &&& a.y <= part.y
    &&& part.y + part.height <= a.y + a.height
}

/// The cells that a `Length` rule asks for; none for the other rules.
pub open spec fn length_of(rule: Constraint) -> int {
    match rule {
        Constraint::Length(n) => n as int,
        _ => 0,
    }
}

/// Whether every rule is a `Length`.
pub open spec fn all_lengths(rules: Seq<Constraint>) -> bool {
    forall|i: int| 0 <= i < rules.len() ==> #[trigger] rules[i] is Length
}

/// The cells that the first `k` rules ask for.
pub open spec fn lengths_before(rules: Seq<Constraint>, k: int) -> int
    decreases k,
{
    if k <= 0 {
        0
    } else {
        lengths_before(rules, k - 1) + length_of(rules[k - 1])
    }
}

/// The `i`-th of rows stacked from the top of `area` with the heights that
/// `rules` ask for.
pub open spec fn stacked_row(area: Rect, rules: Seq<Constraint>, i: int) -> Rect {
    let a = fitted(area);
    Rect {
        x: a.x,
        y: (a.y + lengths_before(rules, i)) as u16,
        width: a.width,
        height: length_of(rules[i]) as u16,
    }
}

/// Whether `rules` are a `Length` between two `Fill(1)`.
pub open spec fn length_between_fills(rules: Seq<Constraint>) -> bool {
    &&& rules.len() == 3
    &&& rules[0] == Constraint::Fill(1)
    &&& rules[1] is Length
    &&& rules[2] == Constraint::Fill(1)
}

/// The middle row of `area` that is `n` rows tall, with the rows above and
/// below it differing by at most one.
pub open spec fn middle_band(band: Rect, area: Rect, n: int) -> bool {
    let a = fitted(area);
    let above = band.y - a.y;
    let below = a.y + a.height - (band.y + n);
    &&& row_of(band, area)
    &&& band.height == n
    &&& 0 <= above
    &&& 0 <= below
    &&& -1 <= above - below <= 1
}

/// `ratatui::layout::Layout::vertical(..).split(..)`: divides `area` into one
/// rectangle per rule, with the default alignment `Flex::Start`.
///
/// The source solves the rules with the `kasuari` solver. Its required
/// constraints keep every segment within the area and give it the area's
/// `x` and width; this contract claims that on every input. The rules
/// themselves are weighted constraints (an empty first spacer at nearly the
/// required strength, empty spacers between segments at a hundred million
/// per unit, `Length` at ten million, the growth of fills at a thousand,
/// equal fills and the growth of the end spacer at a hundred, equal
/// segments at one), and the solver returns a solution of least weighted
/// error. This contract states that solution where it is the only one:
/// - every rule is a `Length` and they fit: the rows are stacked from the
///   top with those heights, as the documentation of `Length` and of
///   `Flex::Start` shows;
/// - a `Length` that fits between two `Fill(1)`: the band has that height
///   and the fills share the rest equally, up to the rounding of a half row,
///   as the documentation of `Fill` shows.
/// Elsewhere the rules may conflict, the best solutions need not be unique,
/// and the solver walks hash maps seeded anew in each process, so what it
/// gives is left unsaid. The source panics ("failed to split") only if the
/// solver refuses a constraint: a required one that cannot hold with the
/// others (the required ones here, the area's bounds and each segment's
/// start before its end, always hold together), or an internal error that
/// the solver's source calls a bug; no input is left out.
#[verifier::external_body]
fn split_vertical(area: Rect, constraints: &[Constraint]) -> (parts: Vec<Rect>)
    ensures
        parts@.len() == constraints@.len(),
        forall|i: int| 0 <= i < parts@.len() ==> row_of(#[trigger] parts@[i], area),
        all_lengths(constraints@) && lengths_before(constraints@, constraints@.len() as int)
            <= fitted(area).height ==> forall|i: int|
            0 <= i < parts@.len() ==> #[trigger] parts@[i] == stacked_row(area, constraints@, i),
        length_between_fills(constraints@) && length_of(constraints@[1]) <= fitted(area).height
            ==> middle_band(parts@[1], area, length_of(constraints@[1])),
{
    let constraints = constraints.iter().map(|c| match *c {
        Constraint::Min(v) => ratatui::layout::Constraint::Min(v),
        Constraint::Length(v) => ratatui::layout::Constraint::Length(v),
        Constraint::Fill(v) => ratatui::layout::Constraint::Fill(v),
    });
    let area = ratatui::layout::Rect::new(area.x, area.y, area.width, area.height);
    ratatui::layout::Layout::vertical(constraints).split(area).iter().map(|r| Rect {
        x: r.x, y: r.y, width: r.width, height: r.height }).collect()
}

/// The parts of a main menu screen.
#[derive(Clone, Copy, Debug, PartialEq, Eq, Structural)]
pub struct MenuLayout {
    pub header: Rect,
    pub list: Rect,
    pub details: Rect,
    pub footer: Rect,
}

/// The area of the main menu's content: 76 cells wide and two rows shorter
/// than the screen, centered.
pub open spec fn menu_content(area: Rect) -> Rect {
    spec_centered(76, if area.height >= 2 { (area.height - 2) as u16 } else { 0 }, area)
}

/// The four parts of a menu layout are rows of `content`.
pub open spec fn parts_in(layout: MenuLayout, content: Rect) -> bool {
    &&& row_of(layout.header, content)
    &&& row_of(layout.list, content)
    &&& row_of(layout.details, content)
    &&& row_of(layout.footer, content)
}

/// The rules of the level list's menu rows: title (6 rows), list (10),
/// details (5) and help (3).
pub fn main_menu_rules() -> (rules: [Constraint; 4])
    ensures
        rules@ == seq![
            Constraint::Length(6),
            Constraint::Length(10),
            Constraint::Length(5),
            Constraint::Length(3),
        ],
{
    let rules = [
        Constraint::Length(6),
        Constraint::Length(10),
        Constraint::Length(5),
        Constraint::Length(3),
    ];
    proof {
        assert(rules@ =~= seq![
            Constraint::Length(6),
            Constraint::Length(10),
            Constraint::Length(5),
            Constraint::Length(3),
        ]);
    }
    rules
}

/// The rules of the death screen: the banner's band of 8 rows between two
/// equal fills.
pub fn death_banner_rules() -> (rules: [Constraint; 3])
    ensures
        rules@ == seq![Constraint::Fill(1), Constraint::Length(8), Constraint::Fill(1)],
{
    let rules = [Constraint::Fill(1), Constraint::Length(8), Constraint::Fill(1)];
    proof {
        assert(rules@ =~= seq![Constraint::Fill(1), Constraint::Length(8), Constraint::Fill(1)]);
    }
    rules
}

/// The menu's parts from its four rows, top to bottom in the order of the
/// rules: title, list, details, help.
pub fn menu_parts(rows: &Vec<Rect>) -> (layout: MenuLayout)
    requires
        rows@.len() == 4,
    ensures
        layout.header == rows@[0],
        layout.list == rows@[1],
        layout.details == rows@[2],
        layout.footer == rows@[3],
{
    MenuLayout { header: rows[0], list: rows[1], details: rows[2], footer: rows[3] }
}

/// The death banner's band from the three parts of the death screen: the
/// middle one.
pub fn banner_band(parts: &Vec<Rect>) -> (band: Rect)
    requires
        parts@.len() == 3,
    ensures
        band == parts@[1],
{
    parts[1]
}

/// The menu's parts stacked from the top of `content`: title (6 rows), list
/// (10), details (5) and help (3).
pub open spec fn stacked_menu(content: Rect) -> MenuLayout {
    let c = fitted(content);
    MenuLayout {
        header: Rect { x: c.x, y: c.y, width: c.width, height: 6 },
        list: Rect { x: c.x, y: (c.y + 6) as u16, width: c.width, height: 10 },
        details: Rect { x: c.x, y: (c.y + 16) as u16, width: c.width, height: 5 },
        footer: Rect { x: c.x, y: (c.y + 21) as u16, width: c.width, height: 3 },
    }
}

/// Lays out the main menu of the level list: the rows of the centered
/// content split by `main_menu_rules`, taken by `menu_parts`. Where the
/// content has the 24 rows they ask for, the parts are stacked from its top;
/// on a shorter screen each is still a row of the content.
pub fn main_menu_layout(area: Rect) -> (layout: MenuLayout)
    requires
        centering_fits(76, if area.height >= 2 { (area.height - 2) as u16 } else { 0 }, area),
    ensures
        parts_in(layout, menu_content(area)),
        fitted(menu_content(area)).height >= 24 ==> layout == stacked_menu(menu_content(area)),
{
    let content = center(76, area.height.saturating_sub(2), area);
    let rules = main_menu_rules();
    let rows = split_vertical(content, &rules);
    proof {
        let r = rules@;
        reveal_with_fuel(lengths_before, 5);
        assert(all_lengths(r));
        assert(lengths_before(r, 4) == 24);
        if fitted(content).height >= 24 {
            assert(rows@[0] == stacked_row(content, r, 0));
            assert(rows@[1] == stacked_row(content, r, 1));
            assert(rows@[2] == stacked_row(content, r, 2));
            assert(rows@[3] == stacked_row(content, r, 3));
        }
    }
    menu_parts(&rows)
}

/// The band of the screen where the death banner shows the percent reached:
/// the screen split by `death_banner_rules`, the band taken by `banner_band`.
/// On a screen of at least 8 rows it is 8 rows tall, in the middle (the rows
/// above and below differ by at most one); on a smaller one it is still a
/// row of the screen.
pub fn death_banner_area(area: Rect) -> (band: Rect)
    ensures
        row_of(band, area),
        fitted(area).height >= 8 ==> middle_band(band, area, 8),
{
    let rules = death_banner_rules();
    let parts = split_vertical(area, &rules);
    banner_band(&parts)
}

/// The parts of a menu lie on the screen: a row of the centered content is
/// inside the screen's area.
pub proof fn lemma_menu_parts_on_screen(area: Rect, part: Rect)
    requires
        centering_fits(76, if area.height >= 2 { (area.height - 2) as u16 } else { 0 }, area),
        row_of(part, menu_content(area)),
    ensures
        area.x <= part.x,
        part.x + part.width <= area.x + area.width,
        area.y <= part.y,
        part.y + part.height <= area.y + area.height,
{
    lemma_centered_inside(76, if area.height >= 2 { (area.height - 2) as u16 } else { 0 }, area);
}

} // verus!
