//! Layout and hit-testing of the self-drawn chrome: the tab strip with its caption buttons, the
//! new-tab dropdown, and the resize border round the window.

use vstd::prelude::*;

verus! {

/// Height of the tab strip / titlebar, in pixels.
pub const CHROME_H: i32 = 36;

/// Fixed tab width.
pub const TAB_W: i32 = 200;

/// New-tab ("+") button width.
pub const NEWTAB_W: i32 = 30;

/// Resize-grab border thickness.
pub const BORDER: i32 = 6;

/// Caption button (min/max/close) width.
pub const BTN_W: i32 = 46;

/// Terminal content inset from the left and right window edges, in pixels.
pub const PAD_X: i32 = 8;

/// Terminal content inset from the chrome and the bottom edge, in pixels.
pub const PAD_Y: i32 = 4;

/// Diameter of the rounded window corners.
pub const RADIUS: i32 = 12;

/// Width of the new-tab dropdown.
pub const MENU_W: i32 = 200;

/// Height of one dropdown item.
pub const MENU_ITEM_H: i32 = 30;

/// Inset above the first and below the last dropdown item.
pub const MENU_PAD: i32 = 4;

/// Smallest width the window can be dragged to.
pub const MIN_TRACK_W: i32 = 360;

/// Smallest height the window can be dragged to.
pub const MIN_TRACK_H: i32 = 220;

/// The most tabs whose strip, with the "+" after it, has `i32` pixel coordinates.
pub const MAX_TABS: usize = 10_737_418;

/// The most dropdown items whose list has `i32` pixel coordinates.
pub const MAX_MENU: usize = 71_582_786;

#[derive(Clone, Copy, PartialEq, Eq, Structural, Debug)]
pub enum CaptionBtn {
    Min,
    Max,
    Close,
}

#[derive(Clone, Copy, PartialEq, Eq, Structural, Debug)]
pub enum Hit {
    Tab(usize),
    Close(usize),
    NewTab,
    Minimize,
    Maximize,
    WindowClose,
    /// Empty strip area: drags the window.
    Drag,
    /// Below the chrome: terminal content.
    Terminal,
}

/// What a point of the window is to the window manager.
#[derive(Clone, Copy, PartialEq, Eq, Structural, Debug)]
pub enum NcHit {
    TopLeft,
    TopRight,
    BottomLeft,
    BottomRight,
    Left,
    Right,
    Top,
    Bottom,
    Caption,
    MinButton,
    MaxButton,
    Close,
    Client,
}

/// A rectangle in pixels; `right` and `bottom` are one past its last column and row.
#[derive(Clone, Copy, PartialEq, Eq, Structural, Debug)]
pub struct Rect {
    pub left: i32,
    pub top: i32,
    pub right: i32,
    pub bottom: i32,
}

impl Rect {
    pub open spec fn contains(self, x: int, y: int) -> bool {
        self.left <= x < self.right && self.top <= y < self.bottom
    }
}

/// Left edge of tab `i`.
pub open spec fn tab_left(i: int) -> int {
    i * TAB_W
}

/// Left edge of the "+" after `ntabs` tabs.
pub open spec fn newtab_left(ntabs: int) -> int {
    tab_left(ntabs) + 4
}

/// Left edge of a caption button in a window `width` wide.
pub open spec fn caption_left(width: int, btn: CaptionBtn) -> int {
    match btn {
        CaptionBtn::Min => width - 3 * BTN_W,
        CaptionBtn::Max => width - 2 * BTN_W,
        CaptionBtn::Close => width - BTN_W,
    }
}

/// The close box of tab `i` holds the point: a square of 24 pixels, 8 from the tab's right edge,
/// centered in the strip.
pub open spec fn in_close_box(i: int, x: int, y: int) -> bool {
    &&& tab_left(i) + TAB_W - 32 <= x < tab_left(i) + TAB_W - 8
    &&& CHROME_H / 2 - 12 <= y < CHROME_H / 2 + 12
}

/// What lies at a client point of a window `width` wide with `ntabs` tabs. The caption buttons
/// cover the strip to the window's edge and take precedence over the tabs.
pub open spec fn hit_at(ntabs: int, width: int, x: int, y: int) -> Hit {
    if y >= CHROME_H {
        Hit::Terminal
    } else if x >= caption_left(width, CaptionBtn::Close) {
        Hit::WindowClose
    } else if x >= caption_left(width, CaptionBtn::Max) {
        Hit::Maximize
    } else if x >= caption_left(width, CaptionBtn::Min) {
        Hit::Minimize
    } else if newtab_left(ntabs) <= x < newtab_left(ntabs) + NEWTAB_W {
        Hit::NewTab
    } else if 0 <= x < tab_left(ntabs) {
        if in_close_box(x / TAB_W as int, x, y) {
            Hit::Close((x / TAB_W as int) as usize)
        } else {
            Hit::Tab((x / TAB_W as int) as usize)
        }
    } else {
        Hit::Drag
    }
}

/// What a client point is to the window manager: a resize edge within `BORDER` of the window's
/// outline, else what the chrome has there.
pub open spec fn nc_hit_at(ntabs: int, width: int, height: int, x: int, y: int) -> NcHit {
    let (left, right) = (x < BORDER, x >= width - BORDER);
    let (top, bottom) = (y < BORDER, y >= height - BORDER);
    if top && left {
        NcHit::TopLeft
    } else if top && right {
        NcHit::TopRight
    } else if bottom && left {
        NcHit::BottomLeft
    } else if bottom && right {
        NcHit::BottomRight
    } else if left {
        NcHit::Left
    } else if right {
        NcHit::Right
    } else if top {
        NcHit::Top
    } else if bottom {
        NcHit::Bottom
    } else {
        match hit_at(ntabs, width, x, y) {
            Hit::Drag => NcHit::Caption,
            Hit::Minimize => NcHit::MinButton,
            Hit::Maximize => NcHit::MaxButton,
            Hit::WindowClose => NcHit::Close,
            _ => NcHit::Client,
        }
    }
}

/// Left edge of the dropdown: under the "+", moved left to stay in the window.
pub open spec fn menu_left(ntabs: int, width: int) -> int {
    if width < MENU_W {
        0
    } else if newtab_left(ntabs) + MENU_W <= width {
        newtab_left(ntabs)
    } else {
        width - MENU_W
    }
}

/// Top edge of dropdown item `i`.
pub open spec fn menu_item_top(i: int) -> int {
    CHROME_H + MENU_PAD + i * MENU_ITEM_H
}

/// Dropdown item `i` holds the point.
pub open spec fn in_menu_item(ntabs: int, width: int, i: int, x: int, y: int) -> bool {
    &&& menu_left(ntabs, width) <= x < menu_left(ntabs, width) + MENU_W
    &&& menu_item_top(i) <= y < menu_item_top(i + 1)
}

/// The dropdown item at the point, if any.
pub open spec fn menu_at(ntabs: int, nshells: int, width: int, x: int, y: int) -> Option<usize> {
    if menu_left(ntabs, width) <= x < menu_left(ntabs, width) + MENU_W && menu_item_top(0) <= y
        < menu_item_top(nshells) {
        Some(((y - menu_item_top(0)) / MENU_ITEM_H as int) as usize)
    } else {
        None
    }
}

/// Left x of the three right-aligned caption buttons (min, max, close).
pub fn caption_xs(width: i32) -> (xs: (i32, i32, i32))
    requires
        width - 3 * BTN_W >= i32::MIN,
    ensures
        xs.0 == caption_left(width as int, CaptionBtn::Min),
        xs.1 == caption_left(width as int, CaptionBtn::Max),
        xs.2 == caption_left(width as int, CaptionBtn::Close),
{
    (width - 3 * BTN_W, width - 2 * BTN_W, width - BTN_W)
}

/// Left x of tab `i`.
pub fn tab_x(i: usize) -> (x: i32)
    requires
        i * TAB_W <= i32::MAX,
    ensures
        x == tab_left(i as int),
{
    i as i32 * TAB_W
}

/// Left x of the "+" after `ntabs` tabs.
pub fn newtab_x(ntabs: usize) -> (x: i32)
    requires
        ntabs * TAB_W + 4 <= i32::MAX,
    ensures
        x == newtab_left(ntabs as int),
{
    ntabs as i32 * TAB_W + 4
}

/// Close-box rect (x0, y0, x1, y1) inside tab `i`, vertically centered. A roomy square, so it is
/// an easy click target.
pub fn close_box(i: usize) -> (b: (i32, i32, i32, i32))
    requires
        i * TAB_W + TAB_W <= i32::MAX,
    ensures
        forall|x: int, y: int| #[trigger]
            in_close_box(i as int, x, y) <==> b.0 <= x < b.2 && b.1 <= y < b.3,
        b.0 == tab_left(i as int) + TAB_W - 32,
        b.1 == 6,
        b.2 == tab_left(i as int) + TAB_W - 8,
        b.3 == 30,
{
    let x1: i32 = tab_x(i) + TAB_W;
    let cy: i32 = CHROME_H / 2;
    (x1 - 32, cy - 12, x1 - 8, cy + 12)
}

/// Classify a client-space point.
pub fn hit(ntabs: usize, width: i32, x: i32, y: i32) -> (h: Hit)
    requires
        ntabs <= MAX_TABS,
        width - 3 * BTN_W >= i32::MIN,
    ensures
        h == hit_at(ntabs as int, width as int, x as int, y as int),
{
    if y >= CHROME_H {
        return Hit::Terminal;
    }
    let (min_x, max_x, close_x): (i32, i32, i32) = caption_xs(width);
    if x >= close_x {
        return Hit::WindowClose;
    }
    if x >= max_x {
        return Hit::Maximize;
    }
    if x >= min_x {
        return Hit::Minimize;
    }
    let nx: i32 = newtab_x(ntabs);
    if x >= nx && x < nx + NEWTAB_W {
        return Hit::NewTab;
    }
    if x >= 0 && x < ntabs as i32 * TAB_W {
        let i: usize = (x / TAB_W) as usize;
        let (cx0, cy0, cx1, cy1): (i32, i32, i32, i32) = close_box(i);
        assert(i as int == x as int / TAB_W as int);
        if x >= cx0 && x < cx1 && y >= cy0 && y < cy1 {
            return Hit::Close(i);
        }
        return Hit::Tab(i);
    }
    Hit::Drag
}

/// Classify a client-space point of a window `width` by `height` for the window manager.
pub fn nc_hit(ntabs: usize, width: i32, height: i32, x: i32, y: i32) -> (h: NcHit)
    requires
        ntabs <= MAX_TABS,
        width - 3 * BTN_W >= i32::MIN,
        height - BORDER >= i32::MIN,
    ensures
        h == nc_hit_at(ntabs as int, width as int, height as int, x as int, y as int),
{
    let (l, r): (bool, bool) = (x < BORDER, x >= width - BORDER);
    let (t, b): (bool, bool) = (y < BORDER, y >= height - BORDER);
    if t && l {
        NcHit::TopLeft
    } else if t && r {
        NcHit::TopRight
    } else if b && l {
        NcHit::BottomLeft
    } else if b && r {
        NcHit::BottomRight
    } else if l {
        NcHit::Left
    } else if r {
        NcHit::Right
    } else if t {
        NcHit::Top
    } else if b {
        NcHit::Bottom
    } else {
        match hit(ntabs, width, x, y) {
            Hit::Drag => NcHit::Caption,
            Hit::Minimize => NcHit::MinButton,
            Hit::Maximize => NcHit::MaxButton,
            Hit::WindowClose => NcHit::Close,
            _ => NcHit::Client,
        }
    }
}

/// The caption button that a window-manager code stands for, if any.
pub fn caption_button(at: NcHit) -> (btn: Option<CaptionBtn>)
    ensures
        btn == match at {
            NcHit::MinButton => Some(CaptionBtn::Min),
            NcHit::MaxButton => Some(CaptionBtn::Max),
            NcHit::Close => Some(CaptionBtn::Close),
            _ => None,
        },
{
    match at {
        NcHit::MinButton => Some(CaptionBtn::Min),
        NcHit::MaxButton => Some(CaptionBtn::Max),
        NcHit::Close => Some(CaptionBtn::Close),
        _ => None,
    }
}

/// Rect of the new-tab dropdown listing `nshells` shells.
pub fn menu_rect(ntabs: usize, nshells: usize, width: i32) -> (r: Rect)
    requires
        ntabs <= MAX_TABS,
        nshells <= MAX_MENU,
    ensures
        r.left == menu_left(ntabs as int, width as int),
        r.right == r.left + MENU_W,
        r.top == CHROME_H,
        r.bottom == menu_item_top(nshells as int) + MENU_PAD,
{
    let nx: i32 = newtab_x(ntabs);
    let left: i32 = if width < MENU_W {
        0
    } else if nx <= width - MENU_W {
        nx
    } else {
        width - MENU_W
    };
    Rect {
        left,
        top: CHROME_H,
        right: left + MENU_W,
        bottom: CHROME_H + MENU_PAD + nshells as i32 * MENU_ITEM_H + MENU_PAD,
    }
}

/// The dropdown item at a client-space point, if any.
pub fn menu_hit(ntabs: usize, nshells: usize, width: i32, x: i32, y: i32) -> (item: Option<usize>)
    requires
        ntabs <= MAX_TABS,
        nshells <= MAX_MENU,
    ensures
        item == menu_at(ntabs as int, nshells as int, width as int, x as int, y as int),
{
    let r: Rect = menu_rect(ntabs, nshells, width);
    let top: i32 = CHROME_H + MENU_PAD;
    if x < r.left || x >= r.right || y < top || y >= r.bottom - MENU_PAD {
        return None;
    }
    Some(((y - top) / MENU_ITEM_H) as usize)
}

/// Where a maximized window goes on its monitor, as position and size: over the work area, so
/// that the taskbar stays visible. The position is relative to the monitor.
pub fn maximized_bounds(work: Rect, monitor: Rect) -> (b: (i32, i32, i32, i32))
    requires
        i32::MIN <= work.left - monitor.left <= i32::MAX,
        i32::MIN <= work.top - monitor.top <= i32::MAX,
        i32::MIN <= work.right - work.left <= i32::MAX,
        i32::MIN <= work.bottom - work.top <= i32::MAX,
    ensures
        b.0 == work.left - monitor.left,
        b.1 == work.top - monitor.top,
        b.2 == work.right - work.left,
        b.3 == work.bottom - work.top,
{
    (
        work.left - monitor.left,
        work.top - monitor.top,
        work.right - work.left,
        work.bottom - work.top,
    )
}

/// Every point below the strip is terminal content, and none in the strip is. A tab or a close
/// box that is hit is one of the tabs there are, and holds the point.
pub proof fn law_hit_names_what_is_there(ntabs: int, width: int, x: int, y: int)
    requires
        0 <= ntabs <= MAX_TABS,
    ensures
        hit_at(ntabs, width, x, y) is Terminal <==> y >= CHROME_H,
        hit_at(ntabs, width, x, y) matches Hit::Tab(i) ==> {
            &&& i < ntabs
            &&& tab_left(i as int) <= x < tab_left(i + 1)
            &&& !in_close_box(i as int, x, y)
        },
        hit_at(ntabs, width, x, y) matches Hit::Close(i) ==> {
            &&& i < ntabs
            &&& in_close_box(i as int, x, y)
        },
{
    if 0 <= x < tab_left(ntabs) {
        assert(0 <= (x / TAB_W as int) < ntabs);
    }
}

/// A close box lies inside its tab and inside the strip.
pub proof fn law_close_box_inside_tab(i: int, x: int, y: int)
    requires
        in_close_box(i, x, y),
    ensures
        tab_left(i) <= x < tab_left(i + 1),
        0 <= y < CHROME_H,
{
}

/// Each part of the strip that the caption buttons do not cover answers to a click where it is
/// drawn: a tab's close box closes that tab, the rest of the tab selects it, the "+" opens one.
pub proof fn law_strip_answers_where_drawn(ntabs: int, width: int, i: int, x: int, y: int)
    requires
        0 <= i < ntabs <= MAX_TABS,
        y < CHROME_H,
        x < caption_left(width, CaptionBtn::Min),
    ensures
        in_close_box(i, x, y) ==> hit_at(ntabs, width, x, y) == Hit::Close(i as usize),
        tab_left(i) <= x < tab_left(i + 1) && !in_close_box(i, x, y) ==> hit_at(
            ntabs,
            width,
            x,
            y,
        ) == Hit::Tab(i as usize),
        newtab_left(ntabs) <= x < newtab_left(ntabs) + NEWTAB_W ==> hit_at(ntabs, width, x, y)
            == Hit::NewTab,
        x < 0 || tab_left(ntabs) <= x < newtab_left(ntabs) || x >= newtab_left(ntabs) + NEWTAB_W
            ==> hit_at(ntabs, width, x, y) == Hit::Drag,
{
    if tab_left(i) <= x < tab_left(i + 1) {
        assert(x / TAB_W as int == i);
    }
}

/// The caption buttons stand side by side at the right end of the strip, and each answers over
/// its whole width whatever the number of tabs.
pub proof fn law_caption_buttons_answer(ntabs: int, width: int, x: int, y: int)
    requires
        y < CHROME_H,
    ensures
        caption_left(width, CaptionBtn::Min) <= x < caption_left(width, CaptionBtn::Max)
            ==> hit_at(ntabs, width, x, y) == Hit::Minimize,
        caption_left(width, CaptionBtn::Max) <= x < caption_left(width, CaptionBtn::Close)
            ==> hit_at(ntabs, width, x, y) == Hit::Maximize,
        caption_left(width, CaptionBtn::Close) <= x ==> hit_at(ntabs, width, x, y)
            == Hit::WindowClose,
{
}

/// Within `BORDER` of the outline the window is resized, and nowhere else. Elsewhere the empty
/// strip drags it, the caption buttons are the window manager's, and all that the terminal itself
/// answers to, its content and its tabs, is client area.
pub proof fn law_border_resizes(ntabs: int, width: int, height: int, x: int, y: int)
    ensures
        ({
            let inner = BORDER <= x < width - BORDER && BORDER <= y < height - BORDER;
            let at = nc_hit_at(ntabs, width, height, x, y);
            let what = hit_at(ntabs, width, x, y);
            &&& inner <==> at is Caption || at is MinButton || at is MaxButton || at is Close
                || at is Client
            &&& inner ==> (at is Caption <==> what is Drag)
            &&& inner ==> (at is Client <==> what is Tab || what is Close || what is NewTab
                || what is Terminal)
        }),
{
}

/// The dropdown hangs below the strip, inside any window at least as wide as itself.
pub proof fn law_menu_below_strip(ntabs: int, nshells: int, width: int, x: int, y: int)
    requires
        0 <= ntabs,
    ensures
        0 <= menu_left(ntabs, width),
        width >= MENU_W ==> menu_left(ntabs, width) + MENU_W <= width,
        menu_at(ntabs, nshells, width, x, y) is Some ==> y >= CHROME_H,
{
}

/// A point picks the dropdown item that holds it, if one does, and no other holds it.
pub proof fn law_menu_picks_item(ntabs: int, nshells: int, width: int, i: int, x: int, y: int)
    requires
        0 <= nshells <= MAX_MENU,
    ensures
        menu_at(ntabs, nshells, width, x, y) == Some(i as usize) && 0 <= i <= usize::MAX <==> 0 <= i
            < nshells && in_menu_item(ntabs, width, i, x, y),
{
    let k = (y - menu_item_top(0)) / MENU_ITEM_H as int;
    if menu_at(ntabs, nshells, width, x, y) is Some {
        assert(0 <= k < nshells);
    }
}

/// In a window that is wide and high enough to have an inside, each side of its border resizes that
/// side, and each corner the two sides that meet in it.
pub proof fn law_border_sides(ntabs: int, width: int, height: int, x: int, y: int)
    requires
        width >= 12,
        height >= 12,
    ensures
        ({
            let at = nc_hit_at(ntabs, width, height, x, y);
            let (left, right, top, bottom) = (x < 6, x >= width - 6, y < 6, y >= height - 6);
            &&& at is TopLeft <==> top && left
            &&& at is TopRight <==> top && right
            &&& at is BottomLeft <==> bottom && left
            &&& at is BottomRight <==> bottom && right
            &&& at is Left <==> left && !top && !bottom
            &&& at is Right <==> right && !top && !bottom
            &&& at is Top <==> top && !left && !right
            &&& at is Bottom <==> bottom && !left && !right
        }),
{
}

/// Inside the border, the caption buttons are to the window manager what they are to the mouse.
pub proof fn law_caption_buttons_named(ntabs: int, width: int, height: int, x: int, y: int)
    requires
        BORDER <= x < width - BORDER,
        BORDER <= y < height - BORDER,
    ensures
        ({
            let at = nc_hit_at(ntabs, width, height, x, y);
            let what = hit_at(ntabs, width, x, y);
            &&& at is MinButton <==> what is Minimize
            &&& at is MaxButton <==> what is Maximize
            &&& at is Close <==> what is WindowClose
        }),
{
}

/// The dropdown hangs under the "+", moved to the left as far as it takes to end at the window's
/// edge, and its items, of 30 pixels each, follow one another from 4 pixels below the strip.
pub proof fn law_menu_layout(ntabs: int, width: int, i: int, x: int, y: int)
    requires
        0 <= ntabs,
        width >= 200,
    ensures
        ({
            let left = menu_left(ntabs, width);
            &&& left <= newtab_left(ntabs)
            &&& left + 200 <= width
            &&& left == newtab_left(ntabs) || left + 200 == width
            &&& in_menu_item(ntabs, width, i, x, y) <==> left <= x < left + 200 && CHROME_H + 4 + 30
                * i <= y < CHROME_H + 34 + 30 * i
        }),
        menu_item_top(0) == CHROME_H + 4,
        menu_item_top(i + 1) == menu_item_top(i) + 30,
{
}

} // verus!
