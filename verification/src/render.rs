//! What the window shows, as a list of drawing steps: the chrome, the cells of the terminal in runs
//! of identical attributes, the cursor, the new-tab dropdown and the window outline.

use vstd::prelude::*;

use crate::cells;
use crate::chrome;
use crate::chrome::{
    CaptionBtn, Rect, BTN_W, CHROME_H, MENU_ITEM_H, MENU_PAD, MENU_W, PAD_X, PAD_Y, RADIUS, TAB_W,
};
use crate::colors::DEFAULT_BG;
use crate::parser::Term;
use crate::screen;
use crate::screen::GridView;
use crate::utf16;

verus! {

/// `rgb(28, 28, 30)`.
pub const CHROME_BG: u32 = 0x001E_1C1C;

/// `rgb(225, 225, 225)`.
pub const TAB_TEXT: u32 = 0x00E1_E1E1;

/// `rgb(150, 150, 150)`.
pub const TAB_TEXT_DIM: u32 = 0x0096_9696;

/// `rgb(60, 60, 60)`.
pub const SEPARATOR: u32 = 0x003C_3C3C;

/// `rgb(60, 60, 62)`.
pub const HOVER_BG: u32 = 0x003E_3C3C;

/// `rgb(232, 17, 35)`.
pub const CLOSE_HOVER_BG: u32 = 0x0023_11E8;

/// `rgb(255, 255, 255)`.
pub const HOVER_TEXT: u32 = 0x00FF_FFFF;

/// Window outline when the window is not focused: `rgb(90, 90, 90)`.
pub const BORDER_INACTIVE: u32 = 0x005A_5A5A;

/// Extra vertical space added per text row for comfortable line spacing.
pub const LINE_GAP: i32 = 4;

/// Code units of a face name, without its terminator, that a font request holds.
pub const FACE_LEN: usize = 31;

pub const GLYPH_TAB_CLOSE: u16 = 0xE711;

pub const GLYPH_MINIMIZE: u16 = 0xE921;

pub const GLYPH_MAXIMIZE: u16 = 0xE922;

pub const GLYPH_RESTORE: u16 = 0xE923;

pub const GLYPH_CLOSE: u16 = 0xE8BB;

pub const GLYPH_PLUS: u16 = 0x002B;

#[derive(Clone, Copy, PartialEq, Eq, Structural, Debug)]
pub enum FontKind {
    Normal,
    Bold,
    Ui,
    Glyph,
}

/// One drawing step.
pub enum Op {
    /// Use a font for the text that follows.
    Font(FontKind),
    /// Draw the text that follows over what is there.
    Transparent,
    /// Draw the text that follows on a background of its own.
    Opaque,
    Fill { rect: Rect, color: u32 },
    /// Text at a point, cut off at the edges of `clip`.
    Text { x: i32, y: i32, clip: Rect, units: Vec<u16>, color: u32 },
    /// `rect` filled with `bg`, and in it one unit per cell from a point on.
    Run { x: i32, y: i32, rect: Rect, units: Vec<u16>, fg: u32, bg: u32 },
    Invert { rect: Rect },
    /// A line of one pixel along the inside of a rectangle with rounded corners.
    Frame { rect: Rect, radius: i32, color: u32 },
}

pub ghost enum OpView {
    Font(FontKind),
    Transparent,
    Opaque,
    Fill { rect: Rect, color: u32 },
    Text { x: int, y: int, clip: Rect, units: Seq<u16>, color: u32 },
    Run { x: int, y: int, rect: Rect, units: Seq<u16>, fg: u32, bg: u32 },
    Invert { rect: Rect },
    Frame { rect: Rect, radius: int, color: u32 },
}

impl View for Op {
    type V = OpView;

    open spec fn view(&self) -> OpView {
        match *self {
            Op::Font(f) => OpView::Font(f),
            Op::Transparent => OpView::Transparent,
            Op::Opaque => OpView::Opaque,
            Op::Fill { rect, color } => OpView::Fill { rect, color },
            Op::Text { x, y, clip, units, color } => OpView::Text {
                x: x as int,
                y: y as int,
                clip,
                units: units@,
                color,
            },
            Op::Run { x, y, rect, units, fg, bg } => OpView::Run {
                x: x as int,
                y: y as int,
                rect,
                units: units@,
                fg,
                bg,
            },
            Op::Invert { rect } => OpView::Invert { rect },
            Op::Frame { rect, radius, color } => OpView::Frame { rect, radius: radius as int, color },
        }
    }
}

/// The steps of a list.
pub open spec fn steps(ops: Seq<Op>) -> Seq<OpView> {
    ops.map_values(|op: Op| op@)
}

/// `f(0) + f(1) + ... + f(n - 1)`.
pub open spec fn joined<A>(n: int, f: spec_fn(int) -> Seq<A>) -> Seq<A>
    decreases n,
{
    if n <= 0 {
        seq![]
    } else {
        joined(n - 1, f) + f(n - 1)
    }
}

pub open spec fn area(left: int, top: int, right: int, bottom: int) -> Rect {
    Rect { left: left as i32, top: top as i32, right: right as i32, bottom: bottom as i32 }
}

/// The size of a character cell, in pixels.
#[derive(Clone, Copy, PartialEq, Eq, Structural, Debug)]
pub struct Fonts {
    pub cw: i32,
    pub ch: i32,
    /// Pixels of leading above the glyph within each (gapped) cell.
    pub lead: i32,
}

impl Fonts {
    pub open spec fn wf(self) -> bool {
        self.cw >= 1 && self.ch > LINE_GAP && self.lead == LINE_GAP / 2
    }

    /// Cell size for a font's measured height, external leading and average character width.
    pub fn new(height: i32, external_leading: i32, ave_char_width: i32) -> (f: Fonts)
        requires
            i32::MIN <= height + external_leading <= i32::MAX - LINE_GAP,
        ensures
            f.wf(),
            f.cw == screen::max(ave_char_width as int, 1),
            f.ch == screen::max(height + external_leading, 1) + LINE_GAP,
            ave_char_width >= 1 ==> f.cw == ave_char_width,
            height + external_leading >= 1 ==> f.ch - LINE_GAP == height + external_leading,
    {
        let sum: i32 = height + external_leading;
        let base_h: i32 = if sum > 1 {
            sum
        } else {
            1
        };
        let cw: i32 = if ave_char_width > 1 {
            ave_char_width
        } else {
            1
        };
        Fonts { cw, ch: base_h + LINE_GAP, lead: LINE_GAP / 2 }
    }

    /// Grid (cols, rows) fitting a terminal area of the given pixel size: at least one of each, and
    /// no more than 16 bits of the count.
    pub fn grid_size(&self, width: i32, height: i32) -> (size: (u16, u16))
        requires
            self.wf(),
        ensures
            size.0 == screen::max(width as int / self.cw as int, 1) % 0x1_0000,
            size.1 == screen::max(height as int / self.ch as int, 1) % 0x1_0000,
            fits_in(size.0, width, self.cw),
            fits_in(size.1, height, self.ch),
    {
        (cells_in(width, self.cw), cells_in(height, self.ch))
    }

    /// A grid of this size has `i32` pixel coordinates.
    pub open spec fn drawable(self, cols: int, rows: int) -> bool {
        &&& PAD_X + cols * self.cw + 2 <= i32::MAX
        &&& CHROME_H + PAD_Y + rows * self.ch <= i32::MAX
    }

    /// Whether a grid of this size has `i32` pixel coordinates.
    pub fn is_drawable(&self, cols: usize, rows: usize) -> (r: bool)
        requires
            self.wf(),
        ensures
            r == self.drawable(cols as int, rows as int),
    {
        let max_cols: i32 = (0x7fff_ffff - PAD_X - 2) / self.cw;
        let max_rows: i32 = (0x7fff_ffff - CHROME_H - PAD_Y) / self.ch;
        proof {
            lemma_fits(cols as int, self.cw as int, i32::MAX - PAD_X - 2);
            lemma_fits(rows as int, self.ch as int, i32::MAX - CHROME_H - PAD_Y);
        }
        cols <= max_cols as usize && rows <= max_rows as usize
    }
}

proof fn lemma_fits(n: int, size: int, limit: int)
    requires
        size > 0,
    ensures
        n <= limit / size <==> n * size <= limit,
{
    assert(n <= limit / size <==> n * size <= limit) by (nonlinear_arith)
        requires
            size > 0,
    ;
}

/// `n` is the number of whole cells of a size that an extent has room for: one at the least, and
/// of a count beyond 16 bits no claim.
pub open spec fn fits_in(n: u16, extent: i32, size: i32) -> bool {
    &&& extent < size ==> n == 1
    &&& size <= extent < 0x1_0000 * size ==> n * size <= extent < (n + 1) * size
}

fn cells_in(extent: i32, size: i32) -> (n: u16)
    requires
        size > 0,
    ensures
        n == screen::max(extent as int / size as int, 1) % 0x1_0000,
        fits_in(n, extent, size),
{
    if extent < size {
        proof {
            assert(extent as int / size as int <= 0) by (nonlinear_arith)
                requires
                    size > 0,
                    extent < size,
            ;
        }
        return 1;
    }
    let n: i32 = extent / size;
    proof {
        assert(extent as int / size as int >= 1) by (nonlinear_arith)
            requires
                size > 0,
                extent >= size,
        ;
    }
    proof {
        let (e, s, k) = (extent as int, size as int, n as int);
        assert(k * s <= e < (k + 1) * s && (e < 0x1_0000 * s ==> k < 0x1_0000)) by (nonlinear_arith)
            requires
                s > 0,
                k == e / s,
        ;
    }
    (n % 0x1_0000) as u16
}

/// The monospace faces to look for, in order: the preferred one, then those that a system without
/// it is likely to have.
pub open spec fn mono_face(preferred: Seq<char>, i: int) -> Seq<char> {
    if i == 0 {
        preferred
    } else if i == 1 {
        "Consolas"@
    } else if i == 2 {
        "Cascadia Mono"@
    } else if i == 3 {
        "Lucida Console"@
    } else {
        "Courier New"@
    }
}

/// The monospace faces to look for, in order.
pub fn mono_faces(preferred: &str) -> (faces: Vec<String>)
    ensures
        faces@.len() == 5,
        forall|i: int| 0 <= i < 5 ==> (#[trigger] faces@[i])@ == mono_face(preferred@, i),
{
    let mut faces: Vec<String> = Vec::new();
    faces.push(preferred.to_string());
    faces.push("Consolas".to_string());
    faces.push("Cascadia Mono".to_string());
    faces.push("Lucida Console".to_string());
    faces.push("Courier New".to_string());
    faces
}

/// The first of the faces that is there, as `found` tells, and the last of them if none is.
pub fn pick_mono(preferred: &str, found: &Vec<bool>) -> (face: String)
    requires
        found@.len() == 5,
    ensures
        forall|i: int|
            0 <= i < 5 && #[trigger] found@[i] && (forall|j: int| 0 <= j < i ==> !found@[j])
                ==> face@ == mono_face(preferred@, i),
        (forall|i: int| 0 <= i < 5 ==> !found@[i]) ==> face@ == "Courier New"@,
{
    let faces: Vec<String> = mono_faces(preferred);
    let mut i: usize = 0;
    while i < 4
        invariant
            i <= 4,
            found@.len() == 5,
            faces@.len() == 5,
            forall|k: int| 0 <= k < 5 ==> (#[trigger] faces@[k])@ == mono_face(preferred@, k),
            forall|j: int| 0 <= j < i ==> !found@[j],
        decreases 4 - i,
    {
        if found[i] {
            return faces[i].clone();
        }
        i = i + 1;
    }
    faces[4].clone()
}

/// The code units of a face name that a font request holds.
pub fn face_units(name: &str) -> (units: Vec<u16>)
    ensures
        units@ == utf16::encode(name@).take(
            screen::min(utf16::encode(name@).len() as int, FACE_LEN as int),
        ),
{
    let mut units: Vec<u16> = utf16::encode_utf16(name);
    if units.len() > FACE_LEN {
        units.truncate(FACE_LEN);
    } else {
        proof {
            assert(units@.take(units@.len() as int) =~= units@);
        }
    }
    units
}

/// What the chrome shows.
pub struct Chrome<'a> {
    pub labels: &'a [String],
    pub active: usize,
    pub accent: u32,
    pub is_max: bool,
    pub hover: Option<CaptionBtn>,
    /// Index of the tab whose close button is hovered, if any.
    pub hover_close: Option<usize>,
    /// Whether the window has focus (accent border vs. gray border).
    pub focused: bool,
    /// Labels of the new-tab dropdown, when it is open.
    pub menu: Option<&'a [String]>,
    /// Index of the hovered dropdown item, if any.
    pub menu_hover: Option<usize>,
}

#[verifier::ext_equal]
pub ghost struct ChromeView {
    pub labels: Seq<Seq<char>>,
    pub active: int,
    pub accent: u32,
    pub is_max: bool,
    pub hover: Option<CaptionBtn>,
    pub hover_close: Option<usize>,
    pub focused: bool,
    pub menu: Option<Seq<Seq<char>>>,
    pub menu_hover: Option<usize>,
}

/// The characters of each string.
pub open spec fn texts(v: Seq<String>) -> Seq<Seq<char>> {
    v.map_values(|s: String| s@)
}

impl<'a> View for Chrome<'a> {
    type V = ChromeView;

    open spec fn view(&self) -> ChromeView {
        ChromeView {
            labels: texts(self.labels@),
            active: self.active as int,
            accent: self.accent,
            is_max: self.is_max,
            hover: self.hover,
            hover_close: self.hover_close,
            focused: self.focused,
            menu: match self.menu {
                Some(items) => Some(texts(items@)),
                None => None,
            },
            menu_hover: self.menu_hover,
        }
    }
}

impl ChromeView {
    /// The strip, the dropdown and the caption buttons have `i32` pixel coordinates in a window
    /// `width` wide.
    pub open spec fn drawable(self, width: int) -> bool {
        &&& self.labels.len() <= chrome::MAX_TABS
        &&& self.menu matches Some(items) ==> items.len() <= chrome::MAX_MENU
        &&& width - 3 * BTN_W >= i32::MIN
    }
}

/// Background of tab `i`: that of the terminal with a bar of the accent color on top for the active
/// tab, else a line that separates it from the tab before.
pub open spec fn tab_back(c: ChromeView, i: int) -> Seq<OpView> {
    let x0 = chrome::tab_left(i);
    if i == c.active {
        seq![
            OpView::Fill { rect: area(x0, 0, x0 + TAB_W, CHROME_H as int), color: DEFAULT_BG },
            OpView::Fill { rect: area(x0, 0, x0 + TAB_W, 2), color: c.accent },
        ]
    } else if i > 0 {
        seq![OpView::Fill { rect: area(x0, 8, x0 + 1, CHROME_H - 8), color: SEPARATOR }]
    } else {
        seq![]
    }
}

/// Label of tab `i`, clear of its close button.
pub open spec fn tab_label(c: ChromeView, i: int) -> Seq<OpView> {
    let x0 = chrome::tab_left(i);
    seq![
        OpView::Text {
            x: x0 + 12,
            y: (CHROME_H - 18) / 2,
            clip: area(x0 + 12, 0, x0 + TAB_W - 36, CHROME_H as int),
            units: utf16::encode(c.labels[i]),
            color: if i == c.active {
                TAB_TEXT
            } else {
                TAB_TEXT_DIM
            },
        },
    ]
}

/// Close button of tab `i`, on a background of its own when hovered.
pub open spec fn tab_close(c: ChromeView, i: int) -> Seq<OpView> {
    let right = chrome::tab_left(i) + TAB_W;
    let hovered = c.hover_close == Some(i as usize);
    (if hovered {
        seq![
            OpView::Fill {
                rect: area(right - 32, CHROME_H / 2 - 12, right - 8, CHROME_H / 2 + 12),
                color: HOVER_BG,
            },
        ]
    } else {
        seq![]
    }) + seq![
        OpView::Text {
            x: right - 26,
            y: (CHROME_H - 12) / 2,
            clip: area(right - 32, 0, right - 8, CHROME_H as int),
            units: seq![GLYPH_TAB_CLOSE],
            color: if hovered {
                HOVER_TEXT
            } else if i == c.active {
                TAB_TEXT
            } else {
                TAB_TEXT_DIM
            },
        },
    ]
}

/// A caption button, on a background of its own when hovered: red for the one that closes.
pub open spec fn caption(c: ChromeView, width: int, btn: CaptionBtn) -> Seq<OpView> {
    let x0 = chrome::caption_left(width, btn);
    let hovered = c.hover == Some(btn);
    (if hovered {
        seq![
            OpView::Fill {
                rect: area(x0, 0, x0 + BTN_W, CHROME_H as int),
                color: if btn == CaptionBtn::Close {
                    CLOSE_HOVER_BG
                } else {
                    HOVER_BG
                },
            },
        ]
    } else {
        seq![]
    }) + seq![
        OpView::Text {
            x: x0 + 16,
            y: (CHROME_H - 14) / 2,
            clip: area(x0, 0, x0 + BTN_W, CHROME_H as int),
            units: seq![
                match btn {
                    CaptionBtn::Min => GLYPH_MINIMIZE,
                    CaptionBtn::Max => if c.is_max {
                        GLYPH_RESTORE
                    } else {
                        GLYPH_MAXIMIZE
                    },
                    CaptionBtn::Close => GLYPH_CLOSE,
                },
            ],
            color: if hovered {
                HOVER_TEXT
            } else {
                TAB_TEXT_DIM
            },
        },
    ]
}

/// The "+" after `ntabs` tabs.
pub open spec fn plus(ntabs: int) -> OpView {
    let left = chrome::newtab_left(ntabs);
    OpView::Text {
        x: left + 8,
        y: (CHROME_H - 18) / 2 - 1,
        clip: area(left, 0, left + 26, CHROME_H as int),
        units: seq![GLYPH_PLUS],
        color: TAB_TEXT,
    }
}

/// The tab strip.
pub open spec fn chrome_picture(width: int, c: ChromeView) -> Seq<OpView> {
    let n = c.labels.len() as int;
    seq![
        OpView::Fill { rect: area(0, 0, width, CHROME_H as int), color: CHROME_BG },
        OpView::Transparent,
    ] + joined(n, |i: int| tab_back(c, i)) + seq![OpView::Font(FontKind::Ui)] + joined(
        n,
        |i: int| tab_label(c, i),
    ) + seq![plus(n), OpView::Font(FontKind::Glyph)] + joined(n, |i: int| tab_close(c, i))
        + caption(c, width, CaptionBtn::Min) + caption(c, width, CaptionBtn::Max) + caption(
        c,
        width,
        CaptionBtn::Close,
    )
}

pub(crate) fn emit(ops: &mut Vec<Op>, op: Op)
    ensures
        steps(final(ops)@) == steps(old(ops)@).push(op@),
{
    let ghost before = ops@;
    ops.push(op);
    proof {
        assert(steps(ops@) =~= steps(before).push(op@));
    }
}

pub(crate) fn rect(left: i32, top: i32, right: i32, bottom: i32) -> (r: Rect)
    ensures
        r == area(left as int, top as int, right as int, bottom as int),
{
    Rect { left, top, right, bottom }
}

fn draw_tab_back(ops: &mut Vec<Op>, c: &Chrome, i: usize)
    requires
        i < chrome::MAX_TABS,
    ensures
        steps(final(ops)@) == steps(old(ops)@) + tab_back(c@, i as int),
{
    let x0: i32 = chrome::tab_x(i);
    let x1: i32 = x0 + TAB_W;
    if i == c.active {
        emit(ops, Op::Fill { rect: rect(x0, 0, x1, CHROME_H), color: DEFAULT_BG });
        emit(ops, Op::Fill { rect: rect(x0, 0, x1, 2), color: c.accent });
    } else if i > 0 {
        emit(ops, Op::Fill { rect: rect(x0, 8, x0 + 1, CHROME_H - 8), color: SEPARATOR });
    }
    proof {
        assert(steps(ops@) =~= steps(old(ops)@) + tab_back(c@, i as int));
    }
}

fn draw_tab_label(ops: &mut Vec<Op>, c: &Chrome, i: usize)
    requires
        i < c.labels@.len() <= chrome::MAX_TABS,
    ensures
        steps(final(ops)@) == steps(old(ops)@) + tab_label(c@, i as int),
{
    let x0: i32 = chrome::tab_x(i);
    let color: u32 = if i == c.active {
        TAB_TEXT
    } else {
        TAB_TEXT_DIM
    };
    emit(
        ops,
        Op::Text {
            x: x0 + 12,
            y: (CHROME_H - 18) / 2,
            clip: rect(x0 + 12, 0, x0 + TAB_W - 36, CHROME_H),
            units: utf16::encode_utf16(c.labels[i].as_str()),
            color,
        },
    );
    proof {
        assert(steps(ops@) =~= steps(old(ops)@) + tab_label(c@, i as int));
    }
}

fn draw_tab_close(ops: &mut Vec<Op>, c: &Chrome, i: usize)
    requires
        i < chrome::MAX_TABS,
    ensures
        steps(final(ops)@) == steps(old(ops)@) + tab_close(c@, i as int),
{
    let (bx0, by0, bx1, by1): (i32, i32, i32, i32) = chrome::close_box(i);
    let hovered: bool = match c.hover_close {
        Some(h) => h == i,
        None => false,
    };
    let color: u32 = if hovered {
        emit(ops, Op::Fill { rect: rect(bx0, by0, bx1, by1), color: HOVER_BG });
        HOVER_TEXT
    } else if i == c.active {
        TAB_TEXT
    } else {
        TAB_TEXT_DIM
    };
    let units: Vec<u16> = vec![GLYPH_TAB_CLOSE];
    proof {
        assert(units@ =~= seq![GLYPH_TAB_CLOSE]);
    }
    emit(
        ops,
        Op::Text {
            x: bx0 + 6,
            y: (CHROME_H - 12) / 2,
            clip: rect(bx0, 0, bx1, CHROME_H),
            units,
            color,
        },
    );
    proof {
        assert(steps(ops@) =~= steps(old(ops)@) + tab_close(c@, i as int));
    }
}

fn draw_caption(ops: &mut Vec<Op>, c: &Chrome, width: i32, btn: CaptionBtn)
    requires
        width - 3 * BTN_W >= i32::MIN,
    ensures
        steps(final(ops)@) == steps(old(ops)@) + caption(c@, width as int, btn),
{
    let (min_x, max_x, close_x): (i32, i32, i32) = chrome::caption_xs(width);
    let (x, glyph): (i32, u16) = match btn {
        CaptionBtn::Min => (min_x, GLYPH_MINIMIZE),
        CaptionBtn::Max => (
            max_x,
            if c.is_max {
                GLYPH_RESTORE
            } else {
                GLYPH_MAXIMIZE
            },
        ),
        CaptionBtn::Close => (close_x, GLYPH_CLOSE),
    };
    let hovered: bool = match c.hover {
        Some(h) => h == btn,
        None => false,
    };
    let color: u32 = if hovered {
        let bg: u32 = if btn == CaptionBtn::Close {
            CLOSE_HOVER_BG
        } else {
            HOVER_BG
        };
        emit(ops, Op::Fill { rect: rect(x, 0, x + BTN_W, CHROME_H), color: bg });
        HOVER_TEXT
    } else {
        TAB_TEXT_DIM
    };
    let units: Vec<u16> = vec![glyph];
    proof {
        assert(units@ =~= seq![glyph]);
    }
    emit(
        ops,
        Op::Text {
            x: x + 16,
            y: (CHROME_H - 14) / 2,
            clip: rect(x, 0, x + BTN_W, CHROME_H),
            units,
            color,
        },
    );
    proof {
        assert(steps(ops@) =~= steps(old(ops)@) + caption(c@, width as int, btn));
    }
}

/// Tab backgrounds and separators, with an accent bar on the active tab's top edge.
fn draw_tab_backs(ops: &mut Vec<Op>, c: &Chrome)
    requires
        c.labels@.len() <= chrome::MAX_TABS,
    ensures
        steps(final(ops)@) == steps(old(ops)@) + joined(
            c@.labels.len() as int,
            |i: int| tab_back(c@, i),
        ),
{
    let n: usize = c.labels.len();
    let ghost before = steps(ops@);
    let ghost of_tab = |i: int| tab_back(c@, i);
    let mut i: usize = 0;
    proof {
        assert(before =~= before + joined(0, of_tab));
    }
    while i < n
        invariant
            i <= n,
            n == c.labels@.len(),
            n <= chrome::MAX_TABS,
            of_tab == |i: int| tab_back(c@, i),
            steps(ops@) == before + joined(i as int, of_tab),
        decreases n - i,
    {
        draw_tab_back(ops, c, i);
        i = i + 1;
        proof {
            assert(steps(ops@) =~= before + joined(i as int, of_tab));
        }
    }
}

/// Tab labels.
fn draw_tab_labels(ops: &mut Vec<Op>, c: &Chrome)
    requires
        c.labels@.len() <= chrome::MAX_TABS,
    ensures
        steps(final(ops)@) == steps(old(ops)@) + joined(
            c@.labels.len() as int,
            |i: int| tab_label(c@, i),
        ),
{
    let n: usize = c.labels.len();
    let ghost before = steps(ops@);
    let ghost of_tab = |i: int| tab_label(c@, i);
    let mut i: usize = 0;
    proof {
        assert(before =~= before + joined(0, of_tab));
    }
    while i < n
        invariant
            i <= n,
            n == c.labels@.len(),
            n <= chrome::MAX_TABS,
            of_tab == |i: int| tab_label(c@, i),
            steps(ops@) == before + joined(i as int, of_tab),
        decreases n - i,
    {
        draw_tab_label(ops, c, i);
        i = i + 1;
        proof {
            assert(steps(ops@) =~= before + joined(i as int, of_tab));
        }
    }
}

/// Tab close buttons.
fn draw_tab_closes(ops: &mut Vec<Op>, c: &Chrome)
    requires
        c.labels@.len() <= chrome::MAX_TABS,
    ensures
        steps(final(ops)@) == steps(old(ops)@) + joined(
            c@.labels.len() as int,
            |i: int| tab_close(c@, i),
        ),
{
    let n: usize = c.labels.len();
    let ghost before = steps(ops@);
    let ghost of_tab = |i: int| tab_close(c@, i);
    let mut i: usize = 0;
    proof {
        assert(before =~= before + joined(0, of_tab));
    }
    while i < n
        invariant
            i <= n,
            n == c.labels@.len(),
            n <= chrome::MAX_TABS,
            of_tab == |i: int| tab_close(c@, i),
            steps(ops@) == before + joined(i as int, of_tab),
        decreases n - i,
    {
        draw_tab_close(ops, c, i);
        i = i + 1;
        proof {
            assert(steps(ops@) =~= before + joined(i as int, of_tab));
        }
    }
}

/// The new-tab "+".
fn draw_plus(ops: &mut Vec<Op>, ntabs: usize)
    requires
        ntabs <= chrome::MAX_TABS,
    ensures
        steps(final(ops)@) == steps(old(ops)@).push(plus(ntabs as int)),
{
    let nx: i32 = chrome::newtab_x(ntabs);
    let units: Vec<u16> = vec![GLYPH_PLUS];
    proof {
        assert(units@ =~= seq![GLYPH_PLUS]);
    }
    emit(
        ops,
        Op::Text {
            x: nx + 8,
            y: (CHROME_H - 18) / 2 - 1,
            clip: rect(nx, 0, nx + 26, CHROME_H),
            units,
            color: TAB_TEXT,
        },
    );
}

/// Draw the tab strip of a window `width` wide.
#[verifier::rlimit(60)]
pub fn draw_chrome(ops: &mut Vec<Op>, width: i32, c: &Chrome)
    requires
        c@.drawable(width as int),
    ensures
        steps(final(ops)@) == steps(old(ops)@) + chrome_picture(width as int, c@),
{
    emit(ops, Op::Fill { rect: rect(0, 0, width, CHROME_H), color: CHROME_BG });
    emit(ops, Op::Transparent);
    draw_tab_backs(ops, c);
    emit(ops, Op::Font(FontKind::Ui));
    draw_tab_labels(ops, c);
    draw_plus(ops, c.labels.len());
    emit(ops, Op::Font(FontKind::Glyph));
    draw_tab_closes(ops, c);
    draw_caption(ops, c, width, CaptionBtn::Min);
    draw_caption(ops, c, width, CaptionBtn::Max);
    draw_caption(ops, c, width, CaptionBtn::Close);
    proof {
        assert(steps(ops@) =~= steps(old(ops)@) + chrome_picture(width as int, c@));
    }
}

/// Dropdown item `i`, on a background of its own when hovered.
pub open spec fn menu_item(c: ChromeView, items: Seq<Seq<char>>, width: int, i: int) -> Seq<OpView> {
    let left = chrome::menu_left(c.labels.len() as int, width);
    let top = chrome::menu_item_top(i);
    let hovered = c.menu_hover == Some(i as usize);
    (if hovered {
        seq![
            OpView::Fill { rect: area(left, top, left + MENU_W, top + MENU_ITEM_H), color: HOVER_BG },
        ]
    } else {
        seq![]
    }) + seq![
        OpView::Text {
            x: left + 12,
            y: top + (MENU_ITEM_H - 18) / 2,
            clip: area(left + 12, top, left + MENU_W - 12, top + MENU_ITEM_H),
            units: utf16::encode(items[i]),
            color: if hovered {
                HOVER_TEXT
            } else {
                TAB_TEXT
            },
        },
    ]
}

/// The new-tab dropdown, when it is open.
pub open spec fn menu_picture(width: int, c: ChromeView) -> Seq<OpView> {
    match c.menu {
        None => seq![],
        Some(items) => {
            let n = items.len() as int;
            let left = chrome::menu_left(c.labels.len() as int, width);
            seq![
                OpView::Transparent,
                OpView::Font(FontKind::Ui),
                OpView::Fill {
                    rect: area(
                        left,
                        CHROME_H as int,
                        left + MENU_W,
                        chrome::menu_item_top(n) + MENU_PAD,
                    ),
                    color: CHROME_BG,
                },
            ] + joined(n, |i: int| menu_item(c, items, width, i))
        },
    }
}

/// The window outline: the accent color when focused, gray when not, with square corners when
/// maximized.
pub open spec fn border_picture(width: int, height: int, c: ChromeView) -> Seq<OpView> {
    seq![
        OpView::Frame {
            rect: area(0, 0, width + 1, height + 1),
            radius: if c.is_max {
                0
            } else {
                RADIUS as int
            },
            color: if c.focused {
                c.accent
            } else {
                BORDER_INACTIVE
            },
        },
    ]
}

/// All that the window shows, in the order it is drawn: the outline comes last, so that it sits on
/// top, and the dropdown after the cells that it covers.
pub open spec fn scene(
    width: int,
    height: int,
    g: GridView,
    f: Fonts,
    c: ChromeView,
) -> Seq<OpView> {
    seq![OpView::Fill { rect: area(0, 0, width, height), color: DEFAULT_BG }] + chrome_picture(
        width,
        c,
    ) + seq![OpView::Opaque] + cells::cells_picture(g, f) + cells::cursor_picture(g, f, c.accent)
        + menu_picture(width, c) + border_picture(width, height, c)
}

fn draw_menu_item(
    ops: &mut Vec<Op>,
    c: &Chrome,
    items: &[String],
    left: i32,
    i: usize,
    Ghost(width): Ghost<int>,
)
    requires
        i < items@.len() <= chrome::MAX_MENU,
        left == chrome::menu_left(c.labels@.len() as int, width),
        left + MENU_W <= i32::MAX,
    ensures
        steps(final(ops)@) == steps(old(ops)@) + menu_item(c@, texts(items@), width, i as int),
{
    let top: i32 = CHROME_H + MENU_PAD + i as i32 * MENU_ITEM_H;
    let hovered: bool = match c.menu_hover {
        Some(h) => h == i,
        None => false,
    };
    let color: u32 = if hovered {
        emit(
            ops,
            Op::Fill { rect: rect(left, top, left + MENU_W, top + MENU_ITEM_H), color: HOVER_BG },
        );
        HOVER_TEXT
    } else {
        TAB_TEXT
    };
    emit(
        ops,
        Op::Text {
            x: left + 12,
            y: top + (MENU_ITEM_H - 18) / 2,
            clip: rect(left + 12, top, left + MENU_W - 12, top + MENU_ITEM_H),
            units: utf16::encode_utf16(items[i].as_str()),
            color,
        },
    );
    proof {
        assert(steps(ops@) =~= steps(old(ops)@) + menu_item(c@, texts(items@), width, i as int));
    }
}

/// Draw the new-tab dropdown, when it is open.
pub fn draw_menu(ops: &mut Vec<Op>, width: i32, c: &Chrome)
    requires
        c@.drawable(width as int),
    ensures
        steps(final(ops)@) == steps(old(ops)@) + menu_picture(width as int, c@),
{
    let ghost s0 = steps(ops@);
    if let Some(items) = c.menu {
        let n: usize = items.len();
        let r: Rect = chrome::menu_rect(c.labels.len(), n, width);
        emit(ops, Op::Transparent);
        emit(ops, Op::Font(FontKind::Ui));
        emit(ops, Op::Fill { rect: r, color: CHROME_BG });
        let ghost of_item = |i: int| menu_item(c@, texts(items@), width as int, i);
        let ghost s1 = steps(ops@);
        proof {
            assert(s1 =~= s1 + joined(0, of_item));
        }
        let mut i: usize = 0;
        while i < n
            invariant
                i <= n,
                n == items@.len(),
                n <= chrome::MAX_MENU,
                r.left == chrome::menu_left(c.labels@.len() as int, width as int),
                r.left + MENU_W <= i32::MAX,
                of_item == |i: int| menu_item(c@, texts(items@), width as int, i),
                steps(ops@) == s1 + joined(i as int, of_item),
            decreases n - i,
        {
            draw_menu_item(ops, c, items, r.left, i, Ghost(width as int));
            i = i + 1;
            proof {
                assert(steps(ops@) =~= s1 + joined(i as int, of_item));
            }
        }
    }
    proof {
        assert(steps(ops@) =~= s0 + menu_picture(width as int, c@));
    }
}

/// Draw the window outline.
pub fn draw_border(ops: &mut Vec<Op>, width: i32, height: i32, c: &Chrome)
    requires
        width < i32::MAX,
        height < i32::MAX,
    ensures
        steps(final(ops)@) == steps(old(ops)@) + border_picture(width as int, height as int, c@),
{
    let color: u32 = if c.focused {
        c.accent
    } else {
        BORDER_INACTIVE
    };
    let radius: i32 = if c.is_max {
        0
    } else {
        RADIUS
    };
    emit(ops, Op::Frame { rect: rect(0, 0, width + 1, height + 1), radius, color });
    proof {
        assert(steps(ops@) =~= steps(old(ops)@) + border_picture(width as int, height as int, c@));
    }
}

/// All that a window `width` by `height` shows.
pub fn render_to(width: i32, height: i32, term: &Term, f: &Fonts, c: &Chrome) -> (ops: Vec<Op>)
    requires
        term.grid.wf(),
        term.grid@.vlines().len() <= usize::MAX,
        f.wf(),
        f.drawable(term.grid@.cols, term.grid@.rows),
        c@.drawable(width as int),
        width < i32::MAX,
        height < i32::MAX,
    ensures
        steps(ops@) == scene(width as int, height as int, term.grid@, *f, c@),
{
    let mut ops: Vec<Op> = Vec::new();
    proof {
        assert(steps(ops@) =~= seq![]);
    }
    emit(&mut ops, Op::Fill { rect: rect(0, 0, width, height), color: DEFAULT_BG });
    draw_chrome(&mut ops, width, c);
    emit(&mut ops, Op::Opaque);
    cells::draw_cells(&mut ops, &term.grid, f);
    cells::draw_cursor(&mut ops, &term.grid, f, c.accent);
    draw_menu(&mut ops, width, c);
    draw_border(&mut ops, width, height, c);
    proof {
        assert(steps(ops@) =~= scene(width as int, height as int, term.grid@, *f, c@));
    }
    ops
}

} // verus!
