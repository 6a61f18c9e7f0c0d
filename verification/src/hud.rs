//! The heads-up display: the messages over the maze, the collected fruit and
//! the leaderboard, and where the window-space readouts go.

use vstd::prelude::*;

use crate::layout::PLAYFIELD_W;
use crate::layout::PLAYFIELD_H;
use crate::layout::{Layout, Orientation, Rect};
use crate::profiling::{digit_width, spec_digits};
use crate::state::stage::{GameStage, StartupSequence};
use vstd::string::StrSliceExecFns;

verus! {

/// Maze-local row of the central message (READY! or GAME OVER).
pub const MESSAGE_LINE_Y: u32 = 136;

/// Maze-local row of PLAYER ONE, above the message line.
pub const PLAYER_LINE_Y: u32 = 89;

/// Most recent collected fruits shown.
pub const MAX_FRUIT_ICONS: usize = 6;

/// Leaderboard rows shown.
pub const MAX_LEADERBOARD_ROWS: usize = 5;

/// Collected fruit, oldest first.
#[derive(Debug, Clone)]
pub struct FruitSprites<F>(pub Vec<F>);

impl<F: Copy> FruitSprites<F> {
    /// No fruit collected.
    pub fn new() -> (r: Self)
        ensures
            r.0@ == Seq::<F>::empty(),
    {
        FruitSprites(Vec::new())
    }

    /// The fruit to show: the most recent first, at most `MAX_FRUIT_ICONS`.
    pub fn recent(&self) -> (r: Vec<F>)
        ensures
            r@.len() == vstd::math::min(self.0@.len() as int, MAX_FRUIT_ICONS as int),
            forall|i: int| 0 <= i < r@.len() ==> #[trigger] r@[i] == self.0@[self.0@.len() - 1 - i],
    {
        let mut out: Vec<F> = Vec::new();
        let n = self.0.len();
        let mut i: usize = 0;
        while i < n && i < MAX_FRUIT_ICONS
            invariant
                n == self.0@.len(),
                0 <= i <= n,
                i <= MAX_FRUIT_ICONS,
                out@.len() == i,
                forall|j: int| 0 <= j < i ==> #[trigger] out@[j] == self.0@[n - 1 - j],
            decreases n - i,
        {
            out.push(self.0[n - 1 - i]);
            i = i + 1;
        }
        out
    }
}

/// One leaderboard row: a short tag and a score.
#[derive(Debug, Clone)]
pub struct LeaderboardEntry {
    pub name: String,
    pub score: u32,
}

/// Top scores, highest first.
#[derive(Debug, Clone)]
pub struct LeaderboardData(pub Vec<LeaderboardEntry>);

/// The placeholder board shown before live scores arrive.
pub open spec fn spec_default_board() -> Seq<(Seq<char>, u32)> {
    seq![("ACE"@, 312000u32), ("BOB"@, 215600u32), ("CAT"@, 188200u32), ("DOT"@, 95400u32), ("EVE"@, 47800u32)]
}

fn entry(name: &str, score: u32) -> (r: LeaderboardEntry)
    ensures
        r.name@ == name@,
        r.score == score,
{
    LeaderboardEntry { name: name.to_owned(), score }
}

impl Default for LeaderboardData {
    fn default() -> (r: Self)
        ensures
            r.0@.len() == 5,
            forall|i: int| 0 <= i < 5 ==> (#[trigger] r.0@[i]).name@ == spec_default_board()[i].0 && r.0@[i].score
                == spec_default_board()[i].1,
    {
        let mut v: Vec<LeaderboardEntry> = Vec::new();
        proof {
            reveal_strlit("ACE");
            reveal_strlit("BOB");
            reveal_strlit("CAT");
            reveal_strlit("DOT");
            reveal_strlit("EVE");
        }
        v.push(entry("ACE", 312000));
        v.push(entry("BOB", 215600));
        v.push(entry("CAT", 188200));
        v.push(entry("DOT", 95400));
        v.push(entry("EVE", 47800));
        LeaderboardData(v)
    }
}

/// A text colour of the HUD.
#[derive(Debug, Clone, Copy, PartialEq, Eq, Structural)]
pub enum HudColor {
    /// Labels: white.
    Label,
    /// Values: yellow.
    Value,
    /// Leaderboard names: cyan.
    Name,
    /// GAME OVER: red.
    Alert,
    /// PLAYER ONE: cyan.
    Player,
}

/// A message drawn over the maze.
#[derive(Debug, Clone, Copy, PartialEq, Eq, Structural)]
pub enum OverlayMessage {
    GameOver,
    Ready,
    PlayerOne,
}

impl OverlayMessage {
    /// The message's text.
    pub fn text(self) -> (r: &'static str)
        ensures
            r@ == (match self {
                OverlayMessage::GameOver => "GAME  OVER"@,
                OverlayMessage::Ready => "READY!"@,
                OverlayMessage::PlayerOne => "PLAYER ONE"@,
            }),
    {
        match self {
            OverlayMessage::GameOver => "GAME  OVER",
            OverlayMessage::Ready => "READY!",
            OverlayMessage::PlayerOne => "PLAYER ONE",
        }
    }

    /// The maze-local row of the message.
    pub fn line_y(self) -> (r: u32)
        ensures
            r == (if self == OverlayMessage::PlayerOne { PLAYER_LINE_Y } else { MESSAGE_LINE_Y }),
    {
        if let OverlayMessage::PlayerOne = self {
            PLAYER_LINE_Y
        } else {
            MESSAGE_LINE_Y
        }
    }

    /// The message's colour.
    pub fn color(self) -> (r: HudColor)
        ensures
            r == (match self {
                OverlayMessage::GameOver => HudColor::Alert,
                OverlayMessage::Ready => HudColor::Value,
                OverlayMessage::PlayerOne => HudColor::Player,
            }),
    {
        match self {
            OverlayMessage::GameOver => HudColor::Alert,
            OverlayMessage::Ready => HudColor::Value,
            OverlayMessage::PlayerOne => HudColor::Player,
        }
    }
}

/// The messages over the maze in a stage: GAME OVER when the game is over;
/// READY! through the opening, with PLAYER ONE above it while the characters are
/// still hidden.
pub open spec fn spec_overlay_messages(stage: GameStage) -> Seq<OverlayMessage> {
    match stage {
        GameStage::GameOver => seq![OverlayMessage::GameOver],
        GameStage::Starting(StartupSequence::TextOnly { .. }) => seq![OverlayMessage::Ready, OverlayMessage::PlayerOne],
        GameStage::Starting(StartupSequence::CharactersVisible { .. }) => seq![OverlayMessage::Ready],
        _ => seq![],
    }
}

/// The messages drawn over the maze in `stage`, in drawing order. (While paused,
/// the maze is also dimmed under a PAUSED banner.)
pub fn overlay_messages(stage: GameStage) -> (r: Vec<OverlayMessage>)
    ensures
        r@ == spec_overlay_messages(stage),
{
    let mut v: Vec<OverlayMessage> = Vec::new();
    match stage {
        GameStage::GameOver => {
            v.push(OverlayMessage::GameOver);
        },
        GameStage::Starting(StartupSequence::TextOnly { .. }) => {
            v.push(OverlayMessage::Ready);
            v.push(OverlayMessage::PlayerOne);
        },
        GameStage::Starting(StartupSequence::CharactersVisible { .. }) => {
            v.push(OverlayMessage::Ready);
        },
        _ => {},
    }
    proof {
        assert(v@ =~= spec_overlay_messages(stage));
    }
    v
}

/// The left edge that centres something `width` wide across the maze (0 when it
/// is wider than the maze).
pub fn centered_x(width: u32) -> (r: u32)
    ensures
        r == (if width >= PLAYFIELD_W { 0 } else { (PLAYFIELD_W - width) / 2 }),
{
    PLAYFIELD_W.saturating_sub(width) / 2
}

/// The top edge that centres something `height` tall down the maze (0 when it
/// is taller than the maze).
pub fn centered_y(height: u32) -> (r: u32)
    ensures
        r == (if height >= PLAYFIELD_H { 0 } else { (PLAYFIELD_H - height) / 2 }),
{
    PLAYFIELD_H.saturating_sub(height) / 2
}

/// Left edges, in playfield pixels, of the score and the high score on the
/// in-maze score line: each right-aligned (at least two digits) to column 7 and
/// column 17 of an eight-pixel grid that starts four pixels in.
pub fn score_line_x(score: u32) -> (r: (u32, u32))
    requires
        score <= 9_999_999,
    ensures
        ({
            let w = spec_max(2, spec_digits(score as nat) as int);
            r.0 == 4 + 8 * (7 - w) && r.1 == 4 + 8 * (17 - w)
        }),
{
    let d = digit_width(score as u64);
    let w: u32 = if d < 2 { 2 } else { d as u32 };
    assert(w <= 7) by {
        reveal_with_fuel(spec_digits, 8);
    }
    (4 + 8 * (7 - w), 4 + 8 * (17 - w))
}

/// A text of the window-space HUD.
#[derive(Debug, Clone, Copy, PartialEq, Eq, Structural)]
pub enum ChromeText {
    /// "1UP".
    OneUp,
    /// "HIGH SCORE".
    HighScore,
    /// "LV".
    Lv,
    /// "HIGH SCORES".
    HighScores,
    /// The score, at least two digits.
    Score,
    /// The level, at least two digits.
    Level,
    /// The name of leaderboard row `i`.
    LeaderName(usize),
    /// The score of leaderboard row `i`, right-aligned in seven columns.
    LeaderScore(usize),
}

/// Something the window-space HUD draws, at window pixels.
#[derive(Debug, Clone, Copy, PartialEq, Eq, Structural)]
pub enum ChromeItem {
    /// A text with its top-left corner (never left of or above the window).
    Text { text: ChromeText, x: i64, y: i64, color: HudColor },
    /// The row of spare-life icons, starting at its left end.
    Lives { x: i64, y: i64 },
    /// The recent fruit, growing leftwards from `anchor_x`.
    Fruits { anchor_x: i64, y: i64 },
}

/// What the HUD shows and how big its parts are.
#[derive(Debug, Clone)]
pub struct ChromeInput {
    pub score: u32,
    pub level: u8,
    /// Height of a text line at the current scale; glyphs are as wide as tall.
    pub text_height: u32,
    /// Height of the life icon at the current scale, if the icon is available.
    pub icon_height: Option<u32>,
}

/// The larger of two integers.
pub open spec fn spec_max(a: int, b: int) -> int {
    if a >= b { a } else { b }
}

/// Half of `v`, rounded towards zero.
pub open spec fn spec_half(v: int) -> int {
    if v >= 0 { v / 2 } else { -((-v) / 2) }
}

/// Number of characters of a HUD text.
pub open spec fn spec_chars(t: ChromeText, input: ChromeInput, board: Seq<LeaderboardEntry>) -> int {
    match t {
        ChromeText::OneUp => 3,
        ChromeText::HighScore => 10,
        ChromeText::Lv => 2,
        ChromeText::HighScores => 11,
        ChromeText::Score => spec_max(2, spec_digits(input.score as nat) as int),
        ChromeText::Level => spec_max(2, spec_digits(input.level as nat) as int),
        ChromeText::LeaderName(i) => if i < board.len() { board[i as int].name@.len() as int } else { 0 },
        ChromeText::LeaderScore(i) => if i < board.len() {
            spec_max(7, spec_digits(board[i as int].score as nat) as int)
        } else {
            0
        },
    }
}

/// A text item, its position moved onto the window where it would start off it.
pub open spec fn spec_text(t: ChromeText, x: int, y: int, color: HudColor) -> ChromeItem {
    ChromeItem::Text { text: t, x: spec_max(x, 0) as i64, y: spec_max(y, 0) as i64, color }
}

/// The HUD line height: a text line and the gap below it.
pub open spec fn spec_line(input: ChromeInput, scale: int) -> int {
    input.text_height + 2 * scale
}

/// The height of the lives and fruit rows.
pub open spec fn spec_icon_h(input: ChromeInput, scale: int) -> int {
    match input.icon_height {
        Some(h) => h as int,
        None => spec_line(input, scale),
    }
}

/// The leaderboard rows from `i` on, `line` apart from `y`, right-aligned to
/// `right_edge`: the name in its colour, then the score after a space.
pub open spec fn spec_board_rows(
    input: ChromeInput,
    board: Seq<LeaderboardEntry>,
    right_edge: int,
    y: int,
    line: int,
    i: int,
    rows: int,
) -> Seq<ChromeItem>
    decreases rows - i,
{
    if i >= rows || i < 0 {
        seq![]
    } else {
        let th = input.text_height as int;
        let name = spec_chars(ChromeText::LeaderName(i as usize), input, board);
        let score = spec_chars(ChromeText::LeaderScore(i as usize), input, board);
        let rx = right_edge - (name + 1 + score) * th;
        seq![
            spec_text(ChromeText::LeaderName(i as usize), rx, y, HudColor::Name),
            spec_text(ChromeText::LeaderScore(i as usize), rx + (name + 1) * th, y, HudColor::Value),
        ] + spec_board_rows(input, board, right_edge, y + line, line, i + 1, rows)
    }
}

/// The landscape HUD: in the left panel, centred as a block, 1UP and the score,
/// HIGH SCORE and the score, the spare lives, LV and the level, with a blank line
/// between groups; in the right panel, right-aligned and centred as a block, the
/// HIGH SCORES header, up to five leaderboard rows, a blank line and the fruit.
pub open spec fn spec_landscape_chrome(
    left: Rect,
    right: Rect,
    scale: int,
    input: ChromeInput,
    board: Seq<LeaderboardEntry>,
) -> Seq<ChromeItem> {
    let th = input.text_height as int;
    let pad = 3 * scale;
    let line = spec_line(input, scale);
    let ih = spec_icon_h(input, scale);
    let cluster = 6 * line + ih + 3 * line;
    let lx = left.x + pad;
    let ly0 = left.y + spec_max(left.h - cluster, 0) / 2;
    let ly1 = ly0 + 2 * line + line;
    let ly2 = ly1 + 2 * line + line;
    let ly3 = ly2 + ih + line;
    let lives = if input.icon_height is Some { seq![ChromeItem::Lives { x: lx as i64, y: ly2 as i64 }] } else { seq![] };
    let rows = if board.len() < MAX_LEADERBOARD_ROWS { board.len() as int } else { MAX_LEADERBOARD_ROWS as int };
    let cluster2 = line + rows * line + line + ih;
    let right_edge = right.x + right.w - pad;
    let ry0 = right.y + spec_max(right.h - cluster2, 0) / 2;
    seq![
        spec_text(ChromeText::OneUp, lx, ly0, HudColor::Label),
        spec_text(ChromeText::Score, lx, ly0 + line, HudColor::Value),
        spec_text(ChromeText::HighScore, lx, ly1, HudColor::Label),
        spec_text(ChromeText::Score, lx, ly1 + line, HudColor::Value),
    ] + lives + seq![
        spec_text(ChromeText::Lv, lx, ly3, HudColor::Label),
        spec_text(ChromeText::Level, lx, ly3 + line, HudColor::Value),
        spec_text(ChromeText::HighScores, right_edge - 11 * th, ry0, HudColor::Label),
    ] + spec_board_rows(input, board, right_edge, ry0 + line, line, 0, rows) + seq![
        ChromeItem::Fruits { anchor_x: right_edge as i64, y: (ry0 + line + rows * line + line) as i64 },
    ]
}

/// The portrait HUD: across the top band 1UP and the score at the left, HIGH
/// SCORE and the score centred, LV and the level right-aligned, each label over
/// its value and the pair centred in the band; in the bottom band the spare lives
/// at the left and the fruit at the right.
pub open spec fn spec_portrait_chrome(top: Rect, bottom: Rect, scale: int, input: ChromeInput, board: Seq<LeaderboardEntry>) -> Seq<ChromeItem> {
    let th = input.text_height as int;
    let pad = 3 * scale;
    let line = spec_line(input, scale);
    let ih = spec_icon_h(input, scale);
    let width = top.w as int;
    let ty = top.y + spec_max(top.h - 2 * line, 0) / 2;
    let lx = top.x + pad;
    let score_w = spec_chars(ChromeText::Score, input, board) * th;
    let level_w = spec_chars(ChromeText::Level, input, board) * th;
    let right_edge = top.x + width - pad;
    let by = bottom.y + spec_max(bottom.h - ih, 0) / 2;
    let lives = if input.icon_height is Some {
        seq![ChromeItem::Lives { x: (bottom.x + pad) as i64, y: by as i64 }]
    } else {
        seq![]
    };
    seq![
        spec_text(ChromeText::OneUp, lx, ty, HudColor::Label),
        spec_text(ChromeText::Score, lx, ty + line, HudColor::Value),
        spec_text(ChromeText::HighScore, top.x + spec_half(width - 10 * th), ty, HudColor::Label),
        spec_text(ChromeText::Score, top.x + spec_half(width - score_w), ty + line, HudColor::Value),
        spec_text(ChromeText::Lv, right_edge - 2 * th, ty, HudColor::Label),
        spec_text(ChromeText::Level, right_edge - level_w, ty + line, HudColor::Value),
    ] + lives + seq![ChromeItem::Fruits { anchor_x: (bottom.x + bottom.w - pad) as i64, y: by as i64 }]
}

/// Whether a layout has the panels (landscape) or bands (portrait) its
/// orientation calls for.
pub open spec fn spec_has_panels(layout: Layout) -> bool {
    match layout.orientation {
        Orientation::Landscape => layout.left is Some && layout.right is Some,
        Orientation::Portrait => layout.top is Some && layout.bottom is Some,
    }
}

/// The HUD items of a layout.
pub open spec fn spec_chrome(layout: Layout, input: ChromeInput, board: Seq<LeaderboardEntry>) -> Seq<ChromeItem> {
    match layout.orientation {
        Orientation::Landscape => spec_landscape_chrome(
            layout.left.unwrap(),
            layout.right.unwrap(),
            layout.scale as int,
            input,
            board,
        ),
        Orientation::Portrait => spec_portrait_chrome(
            layout.top.unwrap(),
            layout.bottom.unwrap(),
            layout.scale as int,
            input,
            board,
        ),
    }
}

fn max_i64(a: i64, b: i64) -> (r: i64)
    ensures
        r == spec_max(a as int, b as int),
{
    if a >= b { a } else { b }
}

fn half_i64(v: i64) -> (r: i64)
    requires
        v > i64::MIN,
    ensures
        r == spec_half(v as int),
{
    if v >= 0 { v / 2 } else { -((-v) / 2) }
}

fn text_item(t: ChromeText, x: i64, y: i64, color: HudColor) -> (r: ChromeItem)
    ensures
        r == spec_text(t, x as int, y as int, color),
{
    ChromeItem::Text { text: t, x: max_i64(x, 0), y: max_i64(y, 0), color }
}

/// Bounds under which the HUD arithmetic stays exact.
pub open spec fn spec_chrome_bounded(input: ChromeInput, board: Seq<LeaderboardEntry>) -> bool {
    &&& input.text_height <= 0x10000
    &&& (input.icon_height matches Some(h) ==> h <= 0x10000)
    &&& forall|i: int| 0 <= i < board.len() ==> (#[trigger] board[i]).name@.len() <= 0x10000
}

fn chars_of(t: ChromeText, input: &ChromeInput, board: &Vec<LeaderboardEntry>) -> (r: i64)
    requires
        spec_chrome_bounded(*input, board@),
    ensures
        r == spec_chars(t, *input, board@),
        0 <= r <= 0x10000,
{
    match t {
        ChromeText::OneUp => 3,
        ChromeText::HighScore => 10,
        ChromeText::Lv => 2,
        ChromeText::HighScores => 11,
        ChromeText::Score => max_i64(2, digit_width(input.score as u64) as i64),
        ChromeText::Level => max_i64(2, digit_width(input.level as u64) as i64),
        ChromeText::LeaderName(i) => if i < board.len() {
            board[i].name.as_str().unicode_len() as i64
        } else {
            0
        },
        ChromeText::LeaderScore(i) => if i < board.len() {
            max_i64(7, digit_width(board[i].score as u64) as i64)
        } else {
            0
        },
    }
}

fn board_rows(
    input: &ChromeInput,
    board: &Vec<LeaderboardEntry>,
    right_edge: i64,
    y0: i64,
    line: i64,
    rows: usize,
) -> (r: Vec<ChromeItem>)
    requires
        rows <= MAX_LEADERBOARD_ROWS,
        rows <= board@.len(),
        spec_chrome_bounded(*input, board@),
        0 <= line <= 0x10000 + 2 * 0xffff_ffff,
        -0x1_0000_0000_0000 <= right_edge <= 0x1_0000_0000_0000,
        -0x1_0000_0000_0000 <= y0 <= 0x1_0000_0000_0000,
    ensures
        r@ == spec_board_rows(*input, board@, right_edge as int, y0 as int, line as int, 0, rows as int),
{
    let th: i64 = input.text_height as i64;
    let mut items: Vec<ChromeItem> = Vec::new();
    let mut ry: i64 = y0;
    let mut i: usize = 0;
    while i < rows
        invariant
            0 <= i <= rows <= MAX_LEADERBOARD_ROWS,
            rows <= board@.len(),
            spec_chrome_bounded(*input, board@),
            th == input.text_height as i64,
            0 <= th <= 0x10000,
            0 <= line <= 0x10000 + 2 * 0xffff_ffff,
            y0 <= ry <= y0 + i * (0x10000 + 2 * 0xffff_ffff),
            -0x1_0000_0000_0000 <= right_edge <= 0x1_0000_0000_0000,
            -0x1_0000_0000_0000 <= y0 <= 0x1_0000_0000_0000,
            items@ + spec_board_rows(*input, board@, right_edge as int, ry as int, line as int, i as int, rows as int)
                == spec_board_rows(*input, board@, right_edge as int, y0 as int, line as int, 0, rows as int),
        decreases rows - i,
    {
        let name = chars_of(ChromeText::LeaderName(i), input, board);
        let score = chars_of(ChromeText::LeaderScore(i), input, board);
        assert(0 <= (name + 1 + score) * th <= 0x20001 * 0x10000) by (nonlinear_arith)
            requires
                0 <= name <= 0x10000,
                0 <= score <= 0x10000,
                0 <= th <= 0x10000,
        ;
        assert(0 <= (name + 1) * th <= 0x20001 * 0x10000) by (nonlinear_arith)
            requires
                0 <= name <= 0x10000,
                0 <= th <= 0x10000,
        ;
        let rx = right_edge - (name + 1 + score) * th;
        let ghost items0 = items@;
        items.push(text_item(ChromeText::LeaderName(i), rx, ry, HudColor::Name));
        items.push(text_item(ChromeText::LeaderScore(i), rx + (name + 1) * th, ry, HudColor::Value));
        proof {
            let tail = spec_board_rows(*input, board@, right_edge as int, (ry + line) as int, line as int, i + 1, rows as int);
            assert(items@ =~= items0 + seq![
                spec_text(ChromeText::LeaderName(i), rx as int, ry as int, HudColor::Name),
                spec_text(ChromeText::LeaderScore(i), (rx + (name + 1) * th) as int, ry as int, HudColor::Value),
            ]);
            assert(items@ + tail =~= items0 + spec_board_rows(*input, board@, right_edge as int, ry as int, line as int, i as int, rows as int));
        }
        assert((i + 1) * (0x10000 + 2 * 0xffff_ffff) == i * (0x10000 + 2 * 0xffff_ffff) + (0x10000 + 2 * 0xffff_ffff)) by (nonlinear_arith);
        assert(i * (0x10000 + 2 * 0xffff_ffff) <= 5 * (0x10000 + 2 * 0xffff_ffff)) by (nonlinear_arith)
            requires i <= 5;
        ry = ry + line;
        i = i + 1;
    }
    proof {
        assert(spec_board_rows(*input, board@, right_edge as int, ry as int, line as int, rows as int, rows as int) =~= Seq::<ChromeItem>::empty());
        assert(items@ =~= items@ + Seq::<ChromeItem>::empty());
    }
    items
}

#[verifier::rlimit(60)]
fn landscape_items(left: Rect, right: Rect, scale: i64, input: &ChromeInput, board: &Vec<LeaderboardEntry>) -> (r: Vec<ChromeItem>)
    requires
        0 <= scale <= 0xffff_ffff,
        spec_chrome_bounded(*input, board@),
    ensures
        r@ == spec_landscape_chrome(left, right, scale as int, *input, board@),
{
    let th: i64 = input.text_height as i64;
    let pad: i64 = 3 * scale;
    let line: i64 = th + 2 * scale;
    let ih: i64 = match input.icon_height {
        Some(h) => h as i64,
        None => line,
    };
    let mut items: Vec<ChromeItem> = Vec::new();
    let cluster: i64 = 6 * line + ih + 3 * line;
    let lx: i64 = left.x as i64 + pad;
    let ly0: i64 = left.y as i64 + max_i64(left.h as i64 - cluster, 0) / 2;
    let ly1: i64 = ly0 + 2 * line + line;
    let ly2: i64 = ly1 + 2 * line + line;
    let ly3: i64 = ly2 + ih + line;
    items.push(text_item(ChromeText::OneUp, lx, ly0, HudColor::Label));
    items.push(text_item(ChromeText::Score, lx, ly0 + line, HudColor::Value));
    items.push(text_item(ChromeText::HighScore, lx, ly1, HudColor::Label));
    items.push(text_item(ChromeText::Score, lx, ly1 + line, HudColor::Value));
    if input.icon_height.is_some() {
        items.push(ChromeItem::Lives { x: lx, y: ly2 });
    }
    items.push(text_item(ChromeText::Lv, lx, ly3, HudColor::Label));
    items.push(text_item(ChromeText::Level, lx, ly3 + line, HudColor::Value));
    let rows: usize = if board.len() < MAX_LEADERBOARD_ROWS { board.len() } else { MAX_LEADERBOARD_ROWS };
    assert(0 <= (rows as i64) * line <= 5 * (0x10000 + 2 * 0xffff_ffff)) by (nonlinear_arith)
        requires
            0 <= rows <= 5,
            0 <= line <= 0x10000 + 2 * 0xffff_ffff,
    ;
    let cluster2: i64 = line + (rows as i64) * line + line + ih;
    let right_edge: i64 = right.x as i64 + right.w as i64 - pad;
    let ry0: i64 = right.y as i64 + max_i64(right.h as i64 - cluster2, 0) / 2;
    items.push(text_item(ChromeText::HighScores, right_edge - 11 * th, ry0, HudColor::Label));
    let rows_items = board_rows(input, board, right_edge, ry0 + line, line, rows);
    items.append(&mut rows_items.clone());
    let ry: i64 = ry0 + line + (rows as i64) * line;
    items.push(ChromeItem::Fruits { anchor_x: right_edge, y: ry + line });
    proof {
        assert(items@ =~= spec_landscape_chrome(left, right, scale as int, *input, board@));
    }
    items
}

fn portrait_items(top: Rect, bottom: Rect, scale: i64, input: &ChromeInput, board: &Vec<LeaderboardEntry>) -> (r: Vec<ChromeItem>)
    requires
        0 <= scale <= 0xffff_ffff,
        spec_chrome_bounded(*input, board@),
    ensures
        r@ == spec_portrait_chrome(top, bottom, scale as int, *input, board@),
{
    let th: i64 = input.text_height as i64;
    let pad: i64 = 3 * scale;
    let line: i64 = th + 2 * scale;
    let ih: i64 = match input.icon_height {
        Some(h) => h as i64,
        None => line,
    };
    let mut items: Vec<ChromeItem> = Vec::new();
    let width: i64 = top.w as i64;
    let ty: i64 = top.y as i64 + max_i64(top.h as i64 - 2 * line, 0) / 2;
    let lx: i64 = top.x as i64 + pad;
    let score_chars = chars_of(ChromeText::Score, input, board);
    let level_chars = chars_of(ChromeText::Level, input, board);
    assert(0 <= score_chars * th <= 0x10000 * 0x10000) by (nonlinear_arith)
        requires
            0 <= score_chars <= 0x10000,
            0 <= th <= 0x10000,
    ;
    assert(0 <= level_chars * th <= 0x10000 * 0x10000) by (nonlinear_arith)
        requires
            0 <= level_chars <= 0x10000,
            0 <= th <= 0x10000,
    ;
    let score_w: i64 = score_chars * th;
    let level_w: i64 = level_chars * th;
    let right_edge: i64 = top.x as i64 + width - pad;
    let by: i64 = bottom.y as i64 + max_i64(bottom.h as i64 - ih, 0) / 2;
    items.push(text_item(ChromeText::OneUp, lx, ty, HudColor::Label));
    items.push(text_item(ChromeText::Score, lx, ty + line, HudColor::Value));
    items.push(text_item(ChromeText::HighScore, top.x as i64 + half_i64(width - 10 * th), ty, HudColor::Label));
    items.push(text_item(ChromeText::Score, top.x as i64 + half_i64(width - score_w), ty + line, HudColor::Value));
    items.push(text_item(ChromeText::Lv, right_edge - 2 * th, ty, HudColor::Label));
    items.push(text_item(ChromeText::Level, right_edge - level_w, ty + line, HudColor::Value));
    if input.icon_height.is_some() {
        items.push(ChromeItem::Lives { x: bottom.x as i64 + pad, y: by });
    }
    items.push(ChromeItem::Fruits { anchor_x: bottom.x as i64 + bottom.w as i64 - pad, y: by });
    proof {
        assert(items@ =~= spec_portrait_chrome(top, bottom, scale as int, *input, board@));
    }
    items
}

/// Where the window-space HUD draws its parts for a layout; see
/// `spec_landscape_chrome` and `spec_portrait_chrome`. Text widths count every
/// glyph as wide as a line of text is tall.
pub fn chrome_items(layout: &Layout, input: &ChromeInput, board: &Vec<LeaderboardEntry>) -> (r: Vec<ChromeItem>)
    requires
        spec_has_panels(*layout),
        spec_chrome_bounded(*input, board@),
    ensures
        r@ == spec_chrome(*layout, *input, board@),
{
    let scale: i64 = layout.scale as i64;
    match layout.orientation {
        Orientation::Landscape => match (layout.left, layout.right) {
            (Some(left), Some(right)) => landscape_items(left, right, scale, input, board),
            _ => Vec::new(),
        },
        Orientation::Portrait => match (layout.top, layout.bottom) {
            (Some(top), Some(bottom)) => portrait_items(top, bottom, scale, input, board),
            _ => Vec::new(),
        },
    }
}

} // verus!
