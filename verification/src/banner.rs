use vstd::prelude::*;
use vstd::string::StringExecFns;

verus! {

/// The glyph of the percent sign among the banner glyphs (after the digits).
pub const PERCENT_GLYPH: usize = 10;

/// The rows of banner glyph `glyph`: the digits 0 to 9, then the percent
/// sign; drawn with full blocks.
pub open spec fn spec_glyph_rows(glyph: int) -> Seq<Seq<char>> {
    if glyph == 0 {
        seq!["███"@, "█ █"@, "█ █"@, "█ █"@, "███"@]
    } else if glyph == 1 {
        seq![" ██"@, "  █"@, "  █"@, "  █"@, " ███"@]
    } else if glyph == 2 {
        seq!["███"@, "  █"@, "███"@, "█  "@, "███"@]
    } else if glyph == 3 {
        seq!["███"@, "  █"@, "███"@, "  █"@, "███"@]
    } else if glyph == 4 {
        seq!["█ █"@, "█ █"@, "███"@, "  █"@, "  █"@]
    } else if glyph == 5 {
        seq!["███"@, "█  "@, "███"@, "  █"@, "███"@]
    } else if glyph == 6 {
        seq!["███"@, "█  "@, "███"@, "█ █"@, "███"@]
    } else if glyph == 7 {
        seq!["███"@, "  █"@, "  █"@, "  █"@, "  █"@]
    } else if glyph == 8 {
        seq!["███"@, "█ █"@, "███"@, "█ █"@, "███"@]
    } else if glyph == 9 {
        seq!["███"@, "█ █"@, "███"@, "  █"@, "███"@]
    } else if glyph == 10 {
        seq!["█   █"@, "   █ "@, "  █  "@, " █   "@, "█   █"@]
    } else {
        Seq::empty()
    }
}

/// Row `row` (0 to 4) of banner glyph `glyph`.
pub open spec fn spec_glyph_row(glyph: int, row: int) -> Seq<char> {
    spec_glyph_rows(glyph)[row]
}

/// Row `row` of banner glyph `glyph`.
pub fn glyph_row(glyph: usize, row: usize) -> (text: &'static str)
    requires
        glyph <= PERCENT_GLYPH,
        row < 5,
    ensures
        text@ == spec_glyph_row(glyph as int, row as int),
{
    match (glyph, row) {
        (0, 0) => "███",
        (0, 1) => "█ █",
        (0, 2) => "█ █",
        (0, 3) => "█ █",
        (0, 4) => "███",
        (1, 0) => " ██",
        (1, 1) => "  █",
        (1, 2) => "  █",
        (1, 3) => "  █",
        (1, 4) => " ███",
        (2, 0) => "███",
        (2, 1) => "  █",
        (2, 2) => "███",
        (2, 3) => "█  ",
        (2, 4) => "███",
        (3, 0) => "███",
        (3, 1) => "  █",
        (3, 2) => "███",
        (3, 3) => "  █",
        (3, 4) => "███",
        (4, 0) => "█ █",
        (4, 1) => "█ █",
        (4, 2) => "███",
        (4, 3) => "  █",
        (4, 4) => "  █",
        (5, 0) => "███",
        (5, 1) => "█  ",
        (5, 2) => "███",
        (5, 3) => "  █",
        (5, 4) => "███",
        (6, 0) => "███",
        (6, 1) => "█  ",
        (6, 2) => "███",
        (6, 3) => "█ █",
        (6, 4) => "███",
        (7, 0) => "███",
        (7, 1) => "  █",
        (7, 2) => "  █",
        (7, 3) => "  █",
        (7, 4) => "  █",
        (8, 0) => "███",
        (8, 1) => "█ █",
        (8, 2) => "███",
        (8, 3) => "█ █",
        (8, 4) => "███",
        (9, 0) => "███",
        (9, 1) => "█ █",
        (9, 2) => "███",
        (9, 3) => "  █",
        (9, 4) => "███",
        (10, 0) => "█   █",
        (10, 1) => "   █ ",
        (10, 2) => "  █  ",
        (10, 3) => " █   ",
        (10, 4) => "█   █",
        _ => "",
    }
}

/// Banner glyphs are told apart: no two of the digits and the percent sign
/// are drawn alike, so a banner row shows which glyphs it is made of.
pub proof fn lemma_glyphs_distinct(a: int, b: int)
    requires
        0 <= a <= PERCENT_GLYPH,
        0 <= b <= PERCENT_GLYPH,
        a != b,
    ensures
        spec_glyph_rows(a) != spec_glyph_rows(b),
{
    reveal_strlit("███");
    reveal_strlit("█ █");
    reveal_strlit(" ██");
    reveal_strlit("  █");
    reveal_strlit(" ███");
    reveal_strlit("█  ");
    reveal_strlit("█   █");
    if spec_glyph_rows(a) == spec_glyph_rows(b) {
        let ra = spec_glyph_rows(a);
        let rb = spec_glyph_rows(b);
        assert(ra[0] == rb[0]);
        assert(ra[1] == rb[1]);
        assert(ra[2] == rb[2]);
        assert(ra[3] == rb[3]);
        assert(ra[4] == rb[4]);
        assert(ra[0][1] == rb[0][1]);
        assert(ra[1][0] == rb[1][0]);
        assert(ra[3][0] == rb[3][0]);
        assert(ra[1][2] == rb[1][2]);
        assert(ra[4][0] == rb[4][0]);
        assert(ra[2][1] == rb[2][1]);
        assert(ra[0][0] == rb[0][0]);
        assert(false);
    }
}

/// The digits of the banner, in full blocks on a three-column grid: a
/// closed box for 0, a post with a flag and a foot for 1, the segments of
/// a seven-segment display for 2 to 9 (6 closes its lower left, 5 does not;
/// 9 closes its upper left, 3 does not); the percent sign is a diagonal
/// with a block at each end.
pub proof fn lemma_banner_font()
    ensures
        spec_glyph_rows(0) == seq!["███"@, "█ █"@, "█ █"@, "█ █"@, "███"@],
        spec_glyph_rows(1) == seq![" ██"@, "  █"@, "  █"@, "  █"@, " ███"@],
        spec_glyph_rows(2) == seq!["███"@, "  █"@, "███"@, "█  "@, "███"@],
        spec_glyph_rows(3) == seq!["███"@, "  █"@, "███"@, "  █"@, "███"@],
        spec_glyph_rows(4) == seq!["█ █"@, "█ █"@, "███"@, "  █"@, "  █"@],
        spec_glyph_rows(5) == seq!["███"@, "█  "@, "███"@, "  █"@, "███"@],
        spec_glyph_rows(6) == seq!["███"@, "█  "@, "███"@, "█ █"@, "███"@],
        spec_glyph_rows(7) == seq!["███"@, "  █"@, "  █"@, "  █"@, "  █"@],
        spec_glyph_rows(8) == seq!["███"@, "█ █"@, "███"@, "█ █"@, "███"@],
        spec_glyph_rows(9) == seq!["███"@, "█ █"@, "███"@, "  █"@, "███"@],
        spec_glyph_rows(10) == seq!["█   █"@, "   █ "@, "  █  "@, " █   "@, "█   █"@],
{
}

/// The decimal digits of `n`, most significant first.
pub open spec fn decimal_digits(n: nat) -> Seq<nat>
    decreases n,
{
    if n < 10 {
        seq![n]
    } else {
        decimal_digits(n / 10).push(n % 10)
    }
}

/// The glyphs of the death banner for `percent`: its digits, then the
/// percent sign.
pub open spec fn banner_glyphs(percent: u8) -> Seq<nat> {
    decimal_digits(percent as nat).push(PERCENT_GLYPH as nat)
}

/// The texts of `parts` joined with one space between them.
pub open spec fn join_with_space(parts: Seq<Seq<char>>) -> Seq<char>
    decreases parts.len(),
{
    if parts.len() == 0 {
        Seq::empty()
    } else if parts.len() == 1 {
        parts[0]
    } else {
        join_with_space(parts.drop_last()) + " "@ + parts.last()
    }
}

/// Row `row` of the death banner for `percent`: that row of each glyph,
/// with a space between glyphs.
pub open spec fn banner_row(percent: u8, row: int) -> Seq<char> {
    join_with_space(banner_glyphs(percent).map_values(|g: nat| spec_glyph_row(g as int, row)))
}

/// Row `row` of the death banner reads the percent in decimal: its hundreds
/// (from 100), tens (from 10) and units digit, then the percent sign, with a
/// space between glyphs.
pub proof fn lemma_banner_reads_the_percent(percent: u8, row: int)
    requires
        0 <= row < 5,
    ensures
        banner_row(percent, row) == if percent < 10 {
            spec_glyph_row(percent as int, row) + " "@ + spec_glyph_row(10, row)
        } else if percent < 100 {
            spec_glyph_row(percent as int / 10, row) + " "@ + spec_glyph_row(percent as int % 10, row) + " "@
                + spec_glyph_row(10, row)
        } else {
            spec_glyph_row(percent as int / 100, row) + " "@ + spec_glyph_row((percent as int / 10) % 10, row)
                + " "@ + spec_glyph_row(percent as int % 10, row) + " "@ + spec_glyph_row(10, row)
        },
{
    let p = percent as nat;
    let glyphs = banner_glyphs(percent);
    let parts = glyphs.map_values(|g: nat| spec_glyph_row(g as int, row));
    if p < 10 {
        assert(glyphs =~= seq![p, 10nat]);
    } else if p < 100 {
        assert(decimal_digits(p / 10) == seq![p / 10]);
        assert(glyphs =~= seq![p / 10, p % 10, 10nat]);
    } else {
        assert(decimal_digits(p / 100) == seq![p / 100]);
        assert(decimal_digits(p / 10) == decimal_digits(p / 100).push((p / 10) % 10));
        assert(glyphs =~= seq![p / 100, (p / 10) % 10, p % 10, 10nat]);
    }
    assert(parts.len() == glyphs.len());
    reveal_with_fuel(join_with_space, 5);
    if p < 10 {
        assert(parts.drop_last() =~= seq![parts[0]]);
    } else if p < 100 {
        assert(parts.drop_last().drop_last() =~= seq![parts[0]]);
        assert(parts.drop_last() =~= seq![parts[0], parts[1]]);
        assert(seq![parts[0], parts[1]].drop_last() =~= seq![parts[0]]);
    } else {
        assert(parts.drop_last() =~= seq![parts[0], parts[1], parts[2]]);
        assert(seq![parts[0], parts[1], parts[2]].drop_last() =~= seq![parts[0], parts[1]]);
        assert(seq![parts[0], parts[1]].drop_last() =~= seq![parts[0]]);
    }
}

/// The glyphs of `percent`.
fn glyphs_of(percent: u8) -> (glyphs: Vec<usize>)
    ensures
        glyphs@.len() == banner_glyphs(percent).len(),
        forall|i: int| 0 <= i < glyphs@.len() ==> glyphs@[i] == banner_glyphs(percent)[i],
        forall|i: int| 0 <= i < glyphs@.len() ==> glyphs@[i] <= PERCENT_GLYPH,
{
    let n = percent as usize;
    let mut glyphs: Vec<usize> = Vec::new();
    if n >= 100 {
        glyphs.push(n / 100);
        glyphs.push(n / 10 % 10);
        glyphs.push(n % 10);
    } else if n >= 10 {
        glyphs.push(n / 10);
        glyphs.push(n % 10);
    } else {
        glyphs.push(n);
    }
    glyphs.push(PERCENT_GLYPH);
    proof {
        let p = percent as nat;
        if p >= 100 {
            assert(decimal_digits(p / 100) == seq![p / 100]);
            assert(decimal_digits(p / 10) == decimal_digits(p / 100).push((p / 10) % 10));
            assert(decimal_digits(p) == decimal_digits(p / 10).push(p % 10));
        } else if p >= 10 {
            assert(decimal_digits(p / 10) == seq![p / 10]);
        }
    }
    glyphs
}

/// The death banner for `percent`: five rows of block glyphs showing the
/// percent reached, followed by a percent sign.
pub fn percent_banner(percent: u8) -> (rows: Vec<String>)
    ensures
        rows@.len() == 5,
        forall|r: int| 0 <= r < 5 ==> #[trigger] rows@[r]@ == banner_row(percent, r),
{
    proof {
        reveal_strlit(" ");
    }
    let glyphs = glyphs_of(percent);
    let ghost parts_of = |r: int| banner_glyphs(percent).map_values(|g: nat| spec_glyph_row(g as int, r));
    let mut rows: Vec<String> = Vec::new();
    let mut row: usize = 0;
    while row < 5
        invariant
            0 <= row <= 5,
            rows@.len() == row,
            glyphs@.len() == banner_glyphs(percent).len(),
            forall|i: int| 0 <= i < glyphs@.len() ==> glyphs@[i] == banner_glyphs(percent)[i],
            forall|i: int| 0 <= i < glyphs@.len() ==> glyphs@[i] <= PERCENT_GLYPH,
            forall|r: int| 0 <= r < row ==> #[trigger] rows@[r]@ == banner_row(percent, r),
        decreases 5 - row,
    {
        let ghost parts = banner_glyphs(percent).map_values(|g: nat| spec_glyph_row(g as int, row as int));
        let mut line = String::new();
        let mut i: usize = 0;
        while i < glyphs.len()
            invariant
                0 <= i <= glyphs@.len(),
                row < 5,
                glyphs@.len() == banner_glyphs(percent).len(),
                parts.len() == glyphs@.len(),
                forall|k: int| 0 <= k < glyphs@.len() ==> glyphs@[k] == banner_glyphs(percent)[k],
                forall|k: int| 0 <= k < glyphs@.len() ==> glyphs@[k] <= PERCENT_GLYPH,
                forall|k: int| 0 <= k < parts.len() ==> #[trigger] parts[k] == spec_glyph_row(glyphs@[k] as int, row as int),
                line@ == join_with_space(parts.take(i as int)),
            decreases glyphs@.len() - i,
        {
            proof {
                assert(parts.take(i + 1).drop_last() =~= parts.take(i as int));
                assert(parts.take(i + 1).last() == parts[i as int]);
            }
            if i > 0 {
                line.append(" ");
            } else {
                proof {
                    assert(parts.take(0) =~= Seq::<Seq<char>>::empty());
                }
            }
            line.append(glyph_row(glyphs[i], row));
            proof {
                if i == 0 {
                    assert(line@ =~= parts.take(1)[0]);
                }
            }
            i = i + 1;
        }
        proof {
            assert(parts.take(glyphs@.len() as int) =~= parts);
        }
        rows.push(line);
        row = row + 1;
    }
    rows
}

/// How many characters the longest row has: the width of the banner.
pub fn banner_width(rows: &Vec<String>) -> (width: usize)
    ensures
        forall|r: int| 0 <= r < rows@.len() ==> rows@[r]@.len() <= width,
        rows@.len() == 0 ==> width == 0,
        rows@.len() > 0 ==> exists|r: int| 0 <= r < rows@.len() && rows@[r]@.len() == width,
{
    let mut width: usize = 0;
    let mut i: usize = 0;
    while i < rows.len()
        invariant
            0 <= i <= rows@.len(),
            forall|r: int| 0 <= r < i ==> rows@[r]@.len() <= width,
            i == 0 ==> width == 0,
            i > 0 ==> exists|r: int| 0 <= r < i && rows@[r]@.len() == width,
        decreases rows@.len() - i,
    {
        let n = rows[i].as_str().unicode_len();
        if n > width || i == 0 {
            width = n;
        }
        i = i + 1;
    }
    width
}


/// The text that the `figlet_rs` crate's standard font (`FIGlet::standard`)
/// renders `message` as (`FIGlet::convert`, then `FIGure::as_str`): one
/// line of the figure per text line, leaving out the characters that have
/// no figure; `None` where the font does not load, or where the message is
/// empty or none of its characters has a figure.
pub uninterp spec fn figlet_standard_text(message: Seq<char>) -> Option<Seq<char>>;

/// A line as `str::lines` gives it: without a carriage return that ended it
/// before the line feed.
pub open spec fn without_cr(line: Seq<char>) -> Seq<char> {
    if line.len() > 0 && line.last() == '\r' {
        line.drop_last()
    } else {
        line
    }
}

/// The lines of `text`, after the characters of the line being read
/// (`current`): a line ends at each `'\n'` (and loses a `'\r'` just before
/// it); the rest after the last `'\n'` is a line unless it is empty.
pub open spec fn lines_after(text: Seq<char>, current: Seq<char>) -> Seq<Seq<char>>
    decreases text.len(),
{
    if text.len() == 0 {
        if current.len() == 0 {
            Seq::empty()
        } else {
            seq![current]
        }
    } else if text[0] == '\n' {
        seq![without_cr(current)] + lines_after(text.drop_first(), Seq::empty())
    } else {
        lines_after(text.drop_first(), current.push(text[0]))
    }
}

/// The lines of `text` as `str::lines` documents them: split at `'\n'` or
/// `"\r\n"`, without the line endings, and with no line after a final
/// line ending.
pub open spec fn text_lines(text: Seq<char>) -> Seq<Seq<char>> {
    lines_after(text, Seq::empty())
}

/// The characters with the Unicode `White_Space` property, which
/// `char::is_whitespace` and `str::trim_end` go by.
pub open spec fn is_white_space(c: char) -> bool {
    ||| '\u{9}' <= c <= '\u{d}'
    ||| c == ' '
    ||| c == '\u{85}'
    ||| c == '\u{a0}'
    ||| c == '\u{1680}'
    ||| '\u{2000}' <= c <= '\u{200a}'
    ||| c == '\u{2028}'
    ||| c == '\u{2029}'
    ||| c == '\u{202f}'
    ||| c == '\u{205f}'
    ||| c == '\u{3000}'
}

/// `text` without its trailing whitespace, as `str::trim_end` documents it.
pub open spec fn trimmed_end(text: Seq<char>) -> Seq<char>
    decreases text.len(),
{
    if text.len() > 0 && is_white_space(text.last()) {
        trimmed_end(text.drop_last())
    } else {
        text
    }
}

/// Renders `message` with the standard font of `figlet_rs`
/// (`FIGlet::standard`, `FIGlet::convert`, `FIGure::as_str`). The contract
/// only names the result; the font is bundled with the crate, so the result
/// depends on the message alone.
#[verifier::external_body]
fn figlet_standard(message: &str) -> (text: Option<String>)
    ensures
        match text {
            Some(t) => figlet_standard_text(message@) == Some(t@),
            None => figlet_standard_text(message@) == None::<Seq<char>>,
        },
{
    figlet_rs::FIGlet::standard().ok()?.convert(message).map(|figure| figure.as_str())
}

/// `str::lines`: the lines of `text`, as its documentation states them.
#[verifier::external_body]
fn lines_of(text: &str) -> (lines: Vec<String>)
    ensures
        lines@.map_values(|l: String| l@) == text_lines(text@),
{
    text.lines().map(|line| line.to_string()).collect()
}

/// `str::trim_end`: `text` without trailing whitespace, as its
/// documentation states it.
#[verifier::external_body]
fn trim_end(text: &str) -> (trimmed: String)
    ensures
        trimmed@ == trimmed_end(text@),
{
    text.trim_end().to_string()
}

/// The name of the game, as the title shows it.
pub open spec fn game_title() -> Seq<char> {
    "Term Dash"@
}

/// The lines of the main menu's title for a title area `width` cells wide:
/// the name in plain text when the area is narrower than 34 cells or the
/// large font fails, else the name in the large font, each line without
/// trailing spaces.
pub open spec fn spec_title_lines(width: usize) -> Seq<Seq<char>> {
    if width < 34 {
        seq![game_title()]
    } else {
        match figlet_standard_text(game_title()) {
            Some(figure) => text_lines(figure).map_values(|l: Seq<char>| trimmed_end(l)),
            None => seq![game_title()],
        }
    }
}

/// The lines of the main menu's title for a title area `width` cells wide.
pub fn title_lines(width: usize) -> (lines: Vec<String>)
    ensures
        lines@.map_values(|l: String| l@) == spec_title_lines(width),
{
    proof {
        reveal_strlit("Term Dash");
    }
    let mut plain: Vec<String> = Vec::new();
    plain.push(String::from_str("Term Dash"));
    proof {
        assert(plain@.map_values(|l: String| l@) =~= seq![game_title()]);
    }
    if width < 34 {
        return plain;
    }
    let figure = match figlet_standard("Term Dash") {
        Some(figure) => figure,
        None => {
            return plain;
        },
    };
    let lines = lines_of(figure.as_str());
    let mut trimmed: Vec<String> = Vec::new();
    let mut i: usize = 0;
    while i < lines.len()
        invariant
            0 <= i <= lines@.len(),
            trimmed@.len() == i,
            forall|k: int| 0 <= k < i ==> #[trigger] trimmed@[k]@ == trimmed_end(lines@[k]@),
        decreases lines@.len() - i,
    {
        trimmed.push(trim_end(lines[i].as_str()));
        i = i + 1;
    }
    proof {
        let views = lines@.map_values(|l: String| l@);
        assert(trimmed@.map_values(|l: String| l@) =~= views.map_values(
            |l: Seq<char>| trimmed_end(l),
        ));
    }
    trimmed
}

} // verus!
