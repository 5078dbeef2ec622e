//! Rectangles on the screen, and the layouts of the switcher and the picker.

use vstd::prelude::*;

verus! {

/// A rectangle of screen cells.
#[derive(Debug, Clone, Copy, PartialEq, Eq, Structural)]
pub struct Rect {
    pub x: u16,
    pub y: u16,
    pub width: u16,
    pub height: u16,
}

/// The rectangle without cells at the origin.
pub open spec fn empty_rect() -> Rect {
    Rect { x: 0, y: 0, width: 0, height: 0 }
}

impl Default for Rect {
    fn default() -> (r: Rect)
        ensures
            r == empty_rect(),
    {
        Rect { x: 0, y: 0, width: 0, height: 0 }
    }
}

pub open spec fn smaller(a: int, b: int) -> int {
    if a <= b {
        a
    } else {
        b
    }
}

pub open spec fn larger(a: int, b: int) -> int {
    if a <= b {
        b
    } else {
        a
    }
}

/// `a - b`, but no less than zero.
pub open spec fn minus(a: int, b: int) -> int {
    larger(a - b, 0)
}

/// The rectangle at (`x`, `y`) of the given size, cut where it would leave the `u16` range.
pub open spec fn clipped_rect(x: int, y: int, width: int, height: int) -> Rect {
    Rect {
        x: x as u16,
        y: y as u16,
        width: smaller(width, u16::MAX - x) as u16,
        height: smaller(height, u16::MAX - y) as u16,
    }
}

/// The first column to the right of `r`, within the `u16` range.
pub open spec fn right(r: Rect) -> int {
    smaller(r.x + r.width, u16::MAX as int)
}

/// The first line below `r`, within the `u16` range.
pub open spec fn bottom(r: Rect) -> int {
    smaller(r.y + r.height, u16::MAX as int)
}

/// The smallest rectangle that holds both `a` and `b`.
pub open spec fn union_rect(a: Rect, b: Rect) -> Rect {
    let x = smaller(a.x as int, b.x as int);
    let y = smaller(a.y as int, b.y as int);
    Rect {
        x: x as u16,
        y: y as u16,
        width: minus(larger(right(a), right(b)), x) as u16,
        height: minus(larger(bottom(a), bottom(b)), y) as u16,
    }
}

/// What is left of `r` inside a border of one cell on each side.
pub open spec fn inside_border(r: Rect) -> Rect {
    Rect {
        x: smaller(smaller(r.x + 1, u16::MAX as int), right(r)) as u16,
        y: smaller(smaller(r.y + 1, u16::MAX as int), bottom(r)) as u16,
        width: minus(r.width as int, 2) as u16,
        height: minus(r.height as int, 2) as u16,
    }
}

/// `ratatui::layout::Rect::new`: a rectangle whose size is cut where it would leave the `u16`
/// range.
#[verifier::external_body]
pub(crate) fn rect_new(x: u16, y: u16, width: u16, height: u16) -> (r: Rect)
    ensures
        r == clipped_rect(x as int, y as int, width as int, height as int),
{
    let r = ratatui::layout::Rect::new(x, y, width, height);
    Rect { x: r.x, y: r.y, width: r.width, height: r.height }
}

/// `ratatui::layout::Rect::union`: the smallest rectangle that holds both.
#[verifier::external_body]
pub(crate) fn rect_union(a: Rect, b: Rect) -> (r: Rect)
    ensures
        r == union_rect(a, b),
{
    let a = ratatui::layout::Rect { x: a.x, y: a.y, width: a.width, height: a.height };
    let b = ratatui::layout::Rect { x: b.x, y: b.y, width: b.width, height: b.height };
    let r = a.union(b);
    Rect { x: r.x, y: r.y, width: r.width, height: r.height }
}

/// `ratatui::widgets::Block::inner` of a block with borders on all sides and nothing else: what
/// is left inside the borders.
#[verifier::external_body]
pub(crate) fn rect_inside_border(a: Rect) -> (r: Rect)
    ensures
        r == inside_border(a),
{
    let area = ratatui::layout::Rect { x: a.x, y: a.y, width: a.width, height: a.height };
    let r = ratatui::widgets::Block::default().borders(ratatui::widgets::Borders::ALL).inner(area);
    Rect { x: r.x, y: r.y, width: r.width, height: r.height }
}

/// Whether the cell at (`col`, `row`) lies in `rect`.
pub open spec fn covers(rect: Rect, col: int, row: int) -> bool {
    rect.x <= col < rect.x + rect.width && rect.y <= row < rect.y + rect.height
}

/// Tests whether the cell at (`col`, `row`) lies in `rect`.
pub fn rect_contains(rect: Rect, col: u16, row: u16) -> (b: bool)
    ensures
        b == covers(rect, col as int, row as int),
{
    col >= rect.x && col - rect.x < rect.width && row >= rect.y && row - rect.y < rect.height
}

/// The width of the list in a content area of width `width`: all of it where that is narrow,
/// else a third within bounds, which leaves at least one column.
pub open spec fn list_width(width: int) -> int {
    if width < 48 {
        width
    } else {
        smaller(smaller(larger(width / 3, 24), 42), width - 1)
    }
}

/// The width of the switcher list in a content area of width `width`.
pub fn workspace_switcher_list_width(width: u16) -> (r: u16)
    ensures
        r == list_width(width as int),
        r <= width,
{
    if width < 48 {
        return width;
    }
    let third: u16 = width / 3;
    let bounded: u16 = if third < 24 {
        24
    } else if third > 42 {
        42
    } else {
        third
    };
    if bounded < width - 1 {
        bounded
    } else {
        width - 1
    }
}

/// The width of the picker list in a content area of width `width`.
pub fn workspace_picker_list_width(width: u16) -> (r: u16)
    ensures
        r == list_width(width as int),
        r <= width,
{
    workspace_switcher_list_width(width)
}

/// Whether the screen is laid out for a wide or a narrow terminal.
#[derive(Debug, Clone, Copy, PartialEq, Eq, Structural)]
pub enum ViewLayout {
    Desktop,
    Mobile,
}

/// Where the parts of the screen are.
#[derive(Debug, Clone, Copy, PartialEq, Eq, Structural)]
pub struct ViewState {
    pub layout: ViewLayout,
    pub sidebar_rect: Rect,
    pub terminal_area: Rect,
    pub mobile_header_rect: Rect,
}

/// Where the parts of the switcher are.
#[derive(Debug, Clone, Copy, PartialEq, Eq, Structural)]
pub struct WorkspaceSwitcherLayout {
    pub mobile_fullscreen: bool,
    pub popup: Rect,
    pub inner: Rect,
    pub top_bar: Rect,
    pub close: Rect,
    pub search: Rect,
    pub search_separator: Rect,
    pub content: Rect,
    pub body: Rect,
    pub divider: Rect,
    pub preview: Rect,
    pub footer: Rect,
}

/// A layout without any part.
pub open spec fn empty_layout() -> WorkspaceSwitcherLayout {
    WorkspaceSwitcherLayout {
        mobile_fullscreen: false,
        popup: empty_rect(),
        inner: empty_rect(),
        top_bar: empty_rect(),
        close: empty_rect(),
        search: empty_rect(),
        search_separator: empty_rect(),
        content: empty_rect(),
        body: empty_rect(),
        divider: empty_rect(),
        preview: empty_rect(),
        footer: empty_rect(),
    }
}

impl Default for WorkspaceSwitcherLayout {
    fn default() -> (r: WorkspaceSwitcherLayout)
        ensures
            r == empty_layout(),
    {
        WorkspaceSwitcherLayout {
            mobile_fullscreen: false,
            popup: Rect::default(),
            inner: Rect::default(),
            top_bar: Rect::default(),
            close: Rect::default(),
            search: Rect::default(),
            search_separator: Rect::default(),
            content: Rect::default(),
            body: Rect::default(),
            divider: Rect::default(),
            preview: Rect::default(),
            footer: Rect::default(),
        }
    }
}

/// The body of `content`: its left part, of the width of the list.
pub open spec fn body_of(content: Rect) -> Rect {
    clipped_rect(
        content.x as int,
        content.y as int,
        list_width(content.width as int),
        content.height as int,
    )
}

/// The column between the list and the preview, where there is a preview.
pub open spec fn divider_of(content: Rect) -> Rect {
    let width = list_width(content.width as int);
    if content.width <= width || content.height == 0 {
        empty_rect()
    } else {
        clipped_rect(content.x + width, content.y as int, 1, content.height as int)
    }
}

/// The part of `content` to the right of the divider.
pub open spec fn preview_of(content: Rect) -> Rect {
    let width = list_width(content.width as int);
    clipped_rect(
        smaller(smaller(content.x + width, u16::MAX as int) + 1, u16::MAX as int),
        content.y as int,
        minus(content.width - width, 1),
        content.height as int,
    )
}

/// The area of a popup over the sidebar and the terminal.
pub open spec fn popup_area(view: ViewState) -> Rect {
    union_rect(view.sidebar_rect, view.terminal_area)
}

pub open spec fn margin_x(area: Rect) -> int {
    larger(area.width as int / 12, 2)
}

pub open spec fn margin_y(area: Rect) -> int {
    larger(area.height as int / 9, 1)
}

/// A popup: the area without its margins, and four cells each way at least.
pub open spec fn popup_of(view: ViewState) -> Rect {
    let area = popup_area(view);
    clipped_rect(
        area.x + margin_x(area),
        area.y + margin_y(area),
        larger(minus(area.width as int, 2 * margin_x(area)), 4),
        larger(minus(area.height as int, 2 * margin_y(area)), 4),
    )
}

/// The content between the search field, where there is one, and the footer.
pub open spec fn content_of(inner: Rect, search: bool) -> Rect {
    if search {
        if inner.height <= 3 {
            empty_rect()
        } else {
            clipped_rect(
                inner.x as int,
                inner.y + 2,
                inner.width as int,
                inner.height - 3,
            )
        }
    } else if inner.height <= 1 {
        empty_rect()
    } else {
        clipped_rect(inner.x as int, inner.y as int, inner.width as int, inner.height - 1)
    }
}

/// The first line inside the popup.
pub open spec fn search_of(inner: Rect) -> Rect {
    clipped_rect(
        inner.x as int,
        inner.y as int,
        inner.width as int,
        smaller(inner.height as int, 1),
    )
}

/// The last line inside the popup.
pub open spec fn footer_of(inner: Rect) -> Rect {
    clipped_rect(
        inner.x as int,
        inner.y + minus(inner.height as int, 1),
        inner.width as int,
        smaller(inner.height as int, 1),
    )
}

/// The line below the search field.
pub open spec fn separator_of(inner: Rect) -> Rect {
    clipped_rect(inner.x as int, inner.y + 1, inner.width as int, 1)
}

/// The layout of the switcher as a popup.
pub open spec fn desktop_layout(view: ViewState, search: bool) -> WorkspaceSwitcherLayout {
    let popup = popup_of(view);
    let inner = inside_border(popup);
    let content = content_of(inner, search);
    WorkspaceSwitcherLayout {
        mobile_fullscreen: false,
        popup,
        inner,
        top_bar: empty_rect(),
        close: empty_rect(),
        search: if search { search_of(inner) } else { empty_rect() },
        search_separator: if search { separator_of(inner) } else { empty_rect() },
        content,
        body: body_of(content),
        divider: divider_of(content),
        preview: preview_of(content),
        footer: footer_of(inner),
    }
}

/// The layout of the switcher over the whole of a narrow screen: a bar, the search field, and a
/// list without a preview.
pub open spec fn mobile_layout(view: ViewState, search: bool) -> WorkspaceSwitcherLayout {
    let popup = union_rect(view.mobile_header_rect, view.terminal_area);
    if popup.width == 0 || popup.height == 0 {
        WorkspaceSwitcherLayout { mobile_fullscreen: true, ..empty_layout() }
    } else {
        let close_width = smaller(popup.width as int, 10);
        let reserved = if !search {
            1
        } else {
            smaller(popup.height as int, 3)
        };
        let content = clipped_rect(
            popup.x as int,
            smaller(popup.y + reserved, u16::MAX as int),
            popup.width as int,
            popup.height - reserved,
        );
        WorkspaceSwitcherLayout {
            mobile_fullscreen: true,
            popup,
            inner: popup,
            top_bar: clipped_rect(popup.x as int, popup.y as int, popup.width as int, 1),
            close: clipped_rect(
                popup.x + popup.width - close_width,
                popup.y as int,
                close_width,
                1,
            ),
            search: if search && popup.height > 1 {
                clipped_rect(popup.x as int, popup.y + 1, popup.width as int, 1)
            } else {
                empty_rect()
            },
            search_separator: if search && popup.height > 2 {
                clipped_rect(popup.x as int, popup.y + 2, popup.width as int, 1)
            } else {
                empty_rect()
            },
            content,
            body: content,
            ..empty_layout()
        }
    }
}

/// The layout of the switcher.
pub open spec fn switcher_layout(view: ViewState, search: bool) -> WorkspaceSwitcherLayout {
    if view.layout == ViewLayout::Mobile {
        mobile_layout(view, search)
    } else {
        desktop_layout(view, search)
    }
}

impl ViewState {
    /// A popup, the line below its border and the one after that have coordinates in the `u16`
    /// range.
    #[verifier::opaque]
    pub open spec fn fits(self) -> bool {
        let area = popup_area(self);
        &&& area.x + margin_x(area) <= u16::MAX
        &&& area.y + margin_y(area) + 2 <= u16::MAX
    }

    /// The switcher has coordinates in the `u16` range. On a narrow screen, where it takes all of
    /// it, it always has.
    pub open spec fn switcher_fits(self) -> bool {
        self.layout == ViewLayout::Mobile || self.fits()
    }

    /// Tests whether the switcher has coordinates in range.
    pub fn switcher_in_range(&self) -> (b: bool)
        ensures
            b == self.switcher_fits(),
    {
        self.layout == ViewLayout::Mobile || self.popup_fits()
    }

    /// Tests whether popups have coordinates in range.
    pub fn popup_fits(&self) -> (b: bool)
        ensures
            b == self.fits(),
    {
        proof {
            reveal(ViewState::fits);
        }
        let area = rect_union(self.sidebar_rect, self.terminal_area);
        let x: u16 = if area.width / 12 < 2 { 2 } else { area.width / 12 };
        let y: u16 = if area.height / 9 < 1 { 1 } else { area.height / 9 };
        area.x <= u16::MAX - x && area.y <= u16::MAX - 2 - y
    }

    /// The popup rectangle.
    pub fn popup(&self) -> (r: Rect)
        requires
            self.fits(),
        ensures
            r == popup_of(*self),
    {
        proof {
            reveal(ViewState::fits);
        }
        let area = rect_union(self.sidebar_rect, self.terminal_area);
        let x: u16 = if area.width / 12 < 2 { 2 } else { area.width / 12 };
        let y: u16 = if area.height / 9 < 1 { 1 } else { area.height / 9 };
        let width: u16 = area.width.saturating_sub(2 * x);
        let height: u16 = area.height.saturating_sub(2 * y);
        rect_new(
            area.x + x,
            area.y + y,
            if width < 4 { 4 } else { width },
            if height < 4 { 4 } else { height },
        )
    }
}

/// The body rectangle of `content`.
pub fn body_rect(content: Rect) -> (r: Rect)
    ensures
        r == body_of(content),
{
    rect_new(content.x, content.y, workspace_switcher_list_width(content.width), content.height)
}

/// The divider rectangle of `content`.
pub fn divider_rect(content: Rect) -> (r: Rect)
    requires
        content.x + content.width <= u16::MAX,
    ensures
        r == divider_of(content),
{
    let width: u16 = workspace_switcher_list_width(content.width);
    if content.width <= width || content.height == 0 {
        Rect::default()
    } else {
        rect_new(content.x + width, content.y, 1, content.height)
    }
}

/// The preview rectangle of `content`.
pub fn preview_rect(content: Rect) -> (r: Rect)
    ensures
        r == preview_of(content),
{
    let width: u16 = workspace_switcher_list_width(content.width);
    rect_new(
        content.x.saturating_add(width).saturating_add(1),
        content.y,
        content.width.saturating_sub(width).saturating_sub(1),
        content.height,
    )
}

/// The content rectangle inside a popup.
pub fn content_rect(inner: Rect, search: bool) -> (r: Rect)
    requires
        inner.y + inner.height <= u16::MAX,
    ensures
        r == content_of(inner, search),
{
    if search {
        if inner.height <= 3 {
            Rect::default()
        } else {
            rect_new(inner.x, inner.y + 2, inner.width, inner.height - 3)
        }
    } else if inner.height <= 1 {
        Rect::default()
    } else {
        rect_new(inner.x, inner.y, inner.width, inner.height - 1)
    }
}

/// The search rectangle inside a popup.
pub fn search_rect(inner: Rect) -> (r: Rect)
    ensures
        r == search_of(inner),
{
    rect_new(inner.x, inner.y, inner.width, if inner.height < 1 { inner.height } else { 1 })
}

/// The footer rectangle inside a popup.
pub fn footer_rect(inner: Rect) -> (r: Rect)
    requires
        inner.y + inner.height <= u16::MAX,
    ensures
        r == footer_of(inner),
{
    rect_new(
        inner.x,
        inner.y + inner.height.saturating_sub(1),
        inner.width,
        if inner.height < 1 { inner.height } else { 1 },
    )
}

/// The popup, its inside and its content stay in the `u16` range, each within the one before.
pub proof fn lemma_popup_nested(view: ViewState, search: bool)
    requires
        view.fits(),
    ensures
        ({
            let popup = popup_of(view);
            let inner = inside_border(popup);
            let content = content_of(inner, search);
            &&& popup.x + popup.width <= u16::MAX
            &&& popup.y + popup.height <= u16::MAX
            &&& popup.x <= inner.x
            &&& inner.x + inner.width <= popup.x + popup.width
            &&& popup.y <= inner.y
            &&& inner.y + inner.height <= popup.y + popup.height
            &&& inner.y < u16::MAX
            &&& content.width > 0 ==> content.x == inner.x && content.width == inner.width
            &&& content.height > 0 ==> inner.y <= content.y && content.y + content.height < inner.y
                + inner.height
            &&& content.x + content.width <= u16::MAX
        }),
{
    reveal(ViewState::fits);
}

/// Whether `inner` lies in `outer`, or is empty.
pub open spec fn lies_in(inner: Rect, outer: Rect) -> bool {
    inner.width == 0 || inner.height == 0 || {
        &&& outer.x <= inner.x
        &&& inner.x + inner.width <= outer.x + outer.width
        &&& outer.y <= inner.y
        &&& inner.y + inner.height <= outer.y + outer.height
    }
}

/// The list, the divider and the preview lie in the content side by side, in this order, and the
/// divider is at most one column wide.
pub proof fn lemma_content_parts(content: Rect)
    requires
        content.x + content.width <= u16::MAX,
        content.y + content.height <= u16::MAX,
    ensures
        lies_in(body_of(content), content),
        lies_in(divider_of(content), content),
        lies_in(preview_of(content), content),
        divider_of(content).width <= 1,
        divider_of(content).width > 0 ==> right(body_of(content)) <= divider_of(content).x,
        preview_of(content).width > 0 ==> right(body_of(content)) <= preview_of(content).x && right(
            divider_of(content),
        ) <= preview_of(content).x,
{
}

proof fn lemma_lies_in(a: Rect, b: Rect, c: Rect)
    requires
        lies_in(a, b),
        lies_in(b, c),
        b.width > 0 && b.height > 0 || a.width == 0 || a.height == 0,
    ensures
        lies_in(a, c),
{
}

proof fn lemma_desktop_parts(view: ViewState, search: bool)
    requires
        view.fits(),
    ensures
        ({
            let layout = desktop_layout(view, search);
            &&& lies_in(layout.inner, layout.popup)
            &&& lies_in(layout.search, layout.popup)
            &&& lies_in(layout.body, layout.popup)
            &&& lies_in(layout.divider, layout.popup)
            &&& lies_in(layout.preview, layout.popup)
            &&& lies_in(layout.footer, layout.popup)
        }),
{
    lemma_popup_nested(view, search);
    let popup = popup_of(view);
    let inner = inside_border(popup);
    let content = content_of(inner, search);
    assert(lies_in(content, popup));
    assert(lies_in(search_of(inner), popup));
    assert(lies_in(footer_of(inner), popup));
    if content.width > 0 && content.height > 0 {
        lemma_content_parts(content);
        lemma_lies_in(body_of(content), content, popup);
        lemma_lies_in(divider_of(content), content, popup);
        lemma_lies_in(preview_of(content), content, popup);
    }
}

proof fn lemma_mobile_parts(view: ViewState, search: bool)
    ensures
        ({
            let layout = mobile_layout(view, search);
            &&& lies_in(layout.search, layout.popup)
            &&& lies_in(layout.body, layout.popup)
            &&& lies_in(layout.top_bar, layout.popup)
            &&& lies_in(layout.close, layout.popup)
        }),
{
}

/// The parts of the switcher lie in its popup.
pub proof fn lemma_switcher_parts(view: ViewState, search: bool)
    requires
        view.switcher_fits(),
    ensures
        ({
            let layout = switcher_layout(view, search);
            &&& lies_in(layout.inner, layout.popup)
            &&& lies_in(layout.search, layout.popup)
            &&& lies_in(layout.body, layout.popup)
            &&& lies_in(layout.divider, layout.popup)
            &&& lies_in(layout.preview, layout.popup)
            &&& lies_in(layout.footer, layout.popup)
            &&& lies_in(layout.top_bar, layout.popup)
            &&& lies_in(layout.close, layout.popup)
        }),
{
    if view.layout == ViewLayout::Mobile {
        lemma_mobile_parts(view, search);
    } else {
        lemma_desktop_parts(view, search);
    }
}

} // verus!
