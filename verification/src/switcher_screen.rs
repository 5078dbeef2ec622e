//! Where the parts of the switcher are on the screen.

use vstd::prelude::*;
use crate::geometry::{
    body_rect, content_rect, covers, divider_rect, footer_rect, lemma_popup_nested, preview_rect,
    rect_contains, rect_inside_border, rect_new, rect_union, search_rect, switcher_layout, Rect,
    ViewLayout, WorkspaceSwitcherLayout,
};
use crate::row_layout::SwitcherRowLayout;
use crate::state::{AppModel, AppState};
use crate::switcher_rows::lemma_switcher_rows_len;
use crate::terminal::TerminalRuntimeRegistry;

verus! {

impl AppState {
    /// The layout of the switcher on the screen.
    pub fn workspace_switcher_layout(&self) -> (r: WorkspaceSwitcherLayout)
        requires
            self@.view.switcher_fits(),
        ensures
            r == switcher_layout(self@.view, self@.switcher.mode.searches()),
    {
        let search = self.workspace_switcher.mode.search_visible();
        if self.view.layout == ViewLayout::Mobile {
            return self.workspace_switcher_mobile_layout();
        }
        proof {
            lemma_popup_nested(self@.view, search);
        }
        let popup = self.view.popup();
        let inner = rect_inside_border(popup);
        let search_area = if search { search_rect(inner) } else { Rect::default() };
        let search_separator = if search {
            rect_new(inner.x, inner.y + 1, inner.width, 1)
        } else {
            Rect::default()
        };
        AppState::workspace_switcher_layout_with_content(
            WorkspaceSwitcherLayout {
                mobile_fullscreen: false,
                popup,
                inner,
                search: search_area,
                search_separator,
                content: content_rect(inner, search),
                footer: footer_rect(inner),
                ..WorkspaceSwitcherLayout::default()
            },
        )
    }

    /// The layout of the switcher over the whole of a narrow screen.
    pub fn workspace_switcher_mobile_layout(&self) -> (r: WorkspaceSwitcherLayout)
        ensures
            r == crate::geometry::mobile_layout(self@.view, self@.switcher.mode.searches()),
    {
        let search = self.workspace_switcher.mode.search_visible();
        let popup = rect_union(self.view.mobile_header_rect, self.view.terminal_area);
        if popup.width == 0 || popup.height == 0 {
            return WorkspaceSwitcherLayout {
                mobile_fullscreen: true,
                ..WorkspaceSwitcherLayout::default()
            };
        }
        let top_bar = rect_new(popup.x, popup.y, popup.width, 1);
        let close_width: u16 = if popup.width < 10 { popup.width } else { 10 };
        let close = rect_new(popup.x + (popup.width - close_width), popup.y, close_width, 1);
        let search_area = if search && popup.height > 1 {
            rect_new(popup.x, popup.y + 1, popup.width, 1)
        } else {
            Rect::default()
        };
        let search_separator = if search && popup.height > 2 {
            rect_new(popup.x, popup.y + 2, popup.width, 1)
        } else {
            Rect::default()
        };
        let reserved: u16 = 1 + search_area.height + search_separator.height;
        let content = rect_new(
            popup.x,
            popup.y.saturating_add(reserved),
            popup.width,
            popup.height.saturating_sub(reserved),
        );
        WorkspaceSwitcherLayout {
            mobile_fullscreen: true,
            popup,
            inner: popup,
            top_bar,
            close,
            search: search_area,
            search_separator,
            content,
            body: content,
            ..WorkspaceSwitcherLayout::default()
        }
    }

    /// Divides the content of `layout` into list, divider and preview.
    pub fn workspace_switcher_layout_with_content(layout: WorkspaceSwitcherLayout) -> (r:
        WorkspaceSwitcherLayout)
        requires
            layout.content.x + layout.content.width <= u16::MAX,
        ensures
            r == (WorkspaceSwitcherLayout {
                body: crate::geometry::body_of(layout.content),
                divider: crate::geometry::divider_of(layout.content),
                preview: crate::geometry::preview_of(layout.content),
                ..layout
            }),
    {
        WorkspaceSwitcherLayout {
            body: body_rect(layout.content),
            divider: divider_rect(layout.content),
            preview: preview_rect(layout.content),
            ..layout
        }
    }

    /// The popup.
    pub fn workspace_switcher_popup_rect(&self) -> (r: Rect)
        requires
            self@.view.switcher_fits(),
        ensures
            r == switcher_layout(self@.view, self@.switcher.mode.searches()).popup,
    {
        self.workspace_switcher_layout().popup
    }

    /// The inside of the popup.
    pub fn workspace_switcher_inner_rect(&self) -> (r: Rect)
        requires
            self@.view.switcher_fits(),
        ensures
            r == switcher_layout(self@.view, self@.switcher.mode.searches()).inner,
    {
        self.workspace_switcher_layout().inner
    }

    /// The top bar of a narrow screen.
    pub fn workspace_switcher_top_bar_rect(&self) -> (r: Rect)
        requires
            self@.view.switcher_fits(),
        ensures
            r == switcher_layout(self@.view, self@.switcher.mode.searches()).top_bar,
    {
        self.workspace_switcher_layout().top_bar
    }

    /// The close button of a narrow screen.
    pub fn workspace_switcher_close_rect(&self) -> (r: Rect)
        requires
            self@.view.switcher_fits(),
        ensures
            r == switcher_layout(self@.view, self@.switcher.mode.searches()).close,
    {
        self.workspace_switcher_layout().close
    }

    /// The search field.
    pub fn workspace_switcher_search_rect(&self) -> (r: Rect)
        requires
            self@.view.switcher_fits(),
        ensures
            r == switcher_layout(self@.view, self@.switcher.mode.searches()).search,
    {
        self.workspace_switcher_layout().search
    }

    /// The content between search field and footer.
    pub fn workspace_switcher_content_rect(&self) -> (r: Rect)
        requires
            self@.view.switcher_fits(),
        ensures
            r == switcher_layout(self@.view, self@.switcher.mode.searches()).content,
    {
        self.workspace_switcher_layout().content
    }

    /// The list.
    pub fn workspace_switcher_body_rect(&self) -> (r: Rect)
        requires
            self@.view.switcher_fits(),
        ensures
            r == self@.switcher_body(),
    {
        proof {
            reveal(AppModel::switcher_body);
        }
        self.workspace_switcher_layout().body
    }

    /// The column between list and preview.
    pub fn workspace_switcher_divider_rect(&self) -> (r: Rect)
        requires
            self@.view.switcher_fits(),
        ensures
            r == switcher_layout(self@.view, self@.switcher.mode.searches()).divider,
    {
        self.workspace_switcher_layout().divider
    }

    /// The preview pane.
    pub fn workspace_switcher_preview_rect(&self) -> (r: Rect)
        requires
            self@.view.switcher_fits(),
        ensures
            r == switcher_layout(self@.view, self@.switcher.mode.searches()).preview,
    {
        self.workspace_switcher_layout().preview
    }

    /// The footer.
    pub fn workspace_switcher_footer_rect(&self) -> (r: Rect)
        requires
            self@.view.switcher_fits(),
        ensures
            r == switcher_layout(self@.view, self@.switcher.mode.searches()).footer,
    {
        self.workspace_switcher_layout().footer
    }

    /// Tests whether the cell at (`col`, `row`) lies in the popup.
    pub fn workspace_switcher_popup_contains(&self, col: u16, row: u16) -> (b: bool)
        requires
            self@.view.switcher_fits(),
        ensures
            b == covers(
                switcher_layout(self@.view, self@.switcher.mode.searches()).popup,
                col as int,
                row as int,
            ),
    {
        rect_contains(self.workspace_switcher_popup_rect(), col, row)
    }

    /// The layout of the rows in the list.
    pub fn workspace_switcher_row_layout(&self, terminal_runtimes: &TerminalRuntimeRegistry) -> (r:
        SwitcherRowLayout)
        requires
            self@.within_limits(),
        ensures
            r.wf(),
            r@ == self@.row_layout(terminal_runtimes@),
    {
        let rows = self.workspace_switcher_rows_from(terminal_runtimes);
        proof {
            reveal(AppModel::countable);
            assert(self@.workspaces.len() == self.workspaces.len());
            lemma_switcher_rows_len(self@, terminal_runtimes@);
        }
        SwitcherRowLayout::new(&rows, self.workspace_switcher_body_rect().height as usize)
    }

    /// The largest scroll offset of the list.
    pub fn workspace_switcher_max_scroll_from(&self, terminal_runtimes: &TerminalRuntimeRegistry)
        -> (r: usize)
        requires
            self@.within_limits(),
        ensures
            r == self@.row_layout(terminal_runtimes@).max_scroll(),
    {
        self.workspace_switcher_row_layout(terminal_runtimes).max_scroll()
    }

    /// The row under the cell at (`col`, `row`).
    pub fn workspace_switcher_row_index_at_from(
        &self,
        terminal_runtimes: &TerminalRuntimeRegistry,
        col: u16,
        row: u16,
    ) -> (r: Option<usize>)
        requires
            self@.within_limits(),
        ensures
            match r {
                Some(i) => self@.row_at(terminal_runtimes@, col, row) == Some(i as int),
                None => self@.row_at(terminal_runtimes@, col, row) is None,
            },
    {
        proof {
            reveal(AppModel::row_at);
            reveal(AppModel::countable);
        }
        let body = self.workspace_switcher_body_rect();
        if !rect_contains(body, col, row) {
            return None;
        }
        let physical: usize = (row - body.y) as usize;
        let layout = self.workspace_switcher_row_layout(terminal_runtimes);
        layout.row_at_physical(physical, self.workspace_switcher.scroll)
    }
}

} // verus!
