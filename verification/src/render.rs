//! The render step: a pure projection of the interaction state to a
//! display model.  The caller draws the model; nothing here mutates the
//! state, so rendering the same state twice yields the same model.

use vstd::prelude::*;
use crate::parser::ItemView;
use crate::parser::LoginItem;
use crate::ui::App;
use crate::ui::AppView;
use crate::ui::ConfirmChoice;
use crate::ui::msg_confirm_prompt;
use crate::ui::spec_tick;

verus! {

// ---------------------------------------------------------------------------
// The display model
// ---------------------------------------------------------------------------

/// One table row: an entry's name and its location, the latter an em dash
/// when the entry has none.
#[derive(Debug, PartialEq, Eq)]
pub struct DisplayRow {
    pub name: String,
    pub path: String,
}

/// The mathematical value of a `DisplayRow`.
pub struct RowView {
    pub name: Seq<char>,
    pub path: Seq<char>,
}

impl View for DisplayRow {
    type V = RowView;

    open spec fn view(&self) -> RowView {
        RowView { name: self.name@, path: self.path@ }
    }
}

/// The confirmation overlay: the targeted entry's name, the two labelled
/// choices, and which of them is highlighted.
#[derive(Debug, PartialEq, Eq)]
pub struct ModalModel {
    pub target: String,
    pub confirm_label: String,
    pub cancel_label: String,
    pub highlighted: ConfirmChoice,
}

/// The mathematical value of a `ModalModel`.
pub struct ModalView {
    pub target: Seq<char>,
    pub confirm_label: Seq<char>,
    pub cancel_label: Seq<char>,
    pub highlighted: ConfirmChoice,
}

impl View for ModalModel {
    type V = ModalView;

    open spec fn view(&self) -> ModalView {
        ModalView {
            target: self.target@,
            confirm_label: self.confirm_label@,
            cancel_label: self.cancel_label@,
            highlighted: self.highlighted,
        }
    }
}

/// One frame of the terminal session: header, selectable rows, footer and
/// an optional confirmation overlay.
#[derive(Debug, PartialEq, Eq)]
pub struct DisplayModel {
    pub header: String,
    pub rows: Vec<DisplayRow>,
    pub selected: Option<usize>,
    pub footer: String,
    pub modal: Option<ModalModel>,
}

/// The mathematical value of a `DisplayModel`.
pub struct DisplayView {
    pub header: Seq<char>,
    pub rows: Seq<RowView>,
    pub selected: Option<usize>,
    pub footer: Seq<char>,
    pub modal: Option<ModalView>,
}

impl View for DisplayModel {
    type V = DisplayView;

    open spec fn view(&self) -> DisplayView {
        DisplayView {
            header: self.header@,
            rows: self.rows@.map_values(|r: DisplayRow| r@),
            selected: self.selected,
            footer: self.footer@,
            modal: match self.modal {
                Some(m) => Some(m@),
                None => None,
            },
        }
    }
}

// ---------------------------------------------------------------------------
// The projection
// ---------------------------------------------------------------------------

/// The location column of an entry without a location.
pub open spec fn no_path_marker() -> Seq<char> {
    "—"@
}

/// The header text above the table.
pub open spec fn header_text() -> Seq<char> {
    "Login Items  ✦  sfltool dumpbtm"@
}

/// The default footer hint shown while nothing else claims the footer.
pub open spec fn default_hint() -> Seq<char> {
    "↑/↓ 选择  d 删除  q 退出   Home/End 跳转到首项/末项"@
}

/// The overlay title used when the captured index no longer names an entry.
pub open spec fn fallback_target() -> Seq<char> {
    "所选项目"@
}

/// The label of the overlay's confirm choice.
pub open spec fn confirm_label_text() -> Seq<char> {
    "Y 确认"@
}

/// The label of the overlay's cancel choice.
pub open spec fn cancel_label_text() -> Seq<char> {
    "N 取消"@
}

/// The row an entry projects to.
pub open spec fn spec_row(it: ItemView) -> RowView {
    RowView {
        name: it.name,
        path: match it.path {
            Some(p) => p,
            None => no_path_marker(),
        },
    }
}

/// The footer: the confirmation's message while confirming, else the
/// status message while one stands, else the default hint.
pub open spec fn spec_footer(v: AppView) -> Seq<char> {
    if v.confirm is Some {
        match v.status {
            Some(s) => s.text,
            None => msg_confirm_prompt(),
        }
    } else {
        match v.status {
            Some(s) => s.text,
            None => default_hint(),
        }
    }
}

/// The confirmation overlay, present exactly while a delete is pending.
pub open spec fn spec_modal(v: AppView) -> Option<ModalView> {
    match v.confirm {
        Some(c) => Some(
            ModalView {
                target: if c.index < v.items.len() {
                    v.items[c.index as int].name
                } else {
                    fallback_target()
                },
                confirm_label: confirm_label_text(),
                cancel_label: cancel_label_text(),
                highlighted: c.selection,
            },
        ),
        None => None,
    }
}

/// The full frame a state projects to.
pub open spec fn spec_render(v: AppView) -> DisplayView {
    DisplayView {
        header: header_text(),
        rows: v.items.map_values(|it: ItemView| spec_row(it)),
        selected: v.selected,
        footer: spec_footer(v),
        modal: spec_modal(v),
    }
}

/// Projects the current state to one frame's display model.
pub fn render_model(app: &App) -> (r: DisplayModel)
    ensures
        r@ == spec_render(app@),
{
    let ghost v = app@;
    let n = app.items.len();
    let mut rows: Vec<DisplayRow> = Vec::new();
    let mut i: usize = 0;
    while i < n
        invariant
            0 <= i <= n,
            n == app.items@.len(),
            v == app@,
            rows@.len() == i,
            forall|j: int| 0 <= j < i ==> (#[trigger] rows@[j])@ == spec_row(v.items[j]),
        decreases n - i,
    {
        let name = app.items[i].name.clone();
        let path = match &app.items[i].path {
            Some(p) => p.clone(),
            None => "—".to_owned(),
        };
        rows.push(DisplayRow { name, path });
        proof {
            assert(v.items[i as int] == app.items@[i as int]@);
            assert(rows@[i as int]@ == spec_row(v.items[i as int]));
        }
        i = i + 1;
    }
    proof {
        let lhs = rows@.map_values(|r: DisplayRow| r@);
        let rhs = v.items.map_values(|it: ItemView| spec_row(it));
        assert forall|j: int| 0 <= j < n implies #[trigger] lhs[j] == rhs[j] by {
            assert(rows@[j]@ == spec_row(v.items[j]));
        }
        assert(lhs =~= rhs);
    }
    let footer = if app.confirm.is_some() {
        match &app.status {
            Some(s) => s.text.clone(),
            None => "确认删除选中项?".to_owned(),
        }
    } else {
        match &app.status {
            Some(s) => s.text.clone(),
            None => "↑/↓ 选择  d 删除  q 退出   Home/End 跳转到首项/末项".to_owned(),
        }
    };
    let modal = match app.confirm {
        Some(c) => {
            let target = if c.index < app.items.len() {
                app.items[c.index].name.clone()
            } else {
                "所选项目".to_owned()
            };
            Some(
                ModalModel {
                    target,
                    confirm_label: "Y 确认".to_owned(),
                    cancel_label: "N 取消".to_owned(),
                    highlighted: c.selection,
                },
            )
        },
        None => None,
    };
    DisplayModel {
        header: "Login Items  ✦  sfltool dumpbtm".to_owned(),
        rows,
        selected: app.selected,
        footer,
        modal,
    }
}

// ---------------------------------------------------------------------------
// Laws
// ---------------------------------------------------------------------------

/// Clearing a stale status is idempotent at a fixed instant: pruning a
/// second time at the same instant changes nothing.
pub proof fn lemma_tick_idempotent(v: AppView, now: u64)
    ensures
        spec_tick(spec_tick(v, now), now) == spec_tick(v, now),
{
}

/// Rendering is repeatable: two frames produced from the same state at the
/// same instant, status expiry included, are the same model.
pub proof fn lemma_render_repeatable(v: AppView, now: u64)
    ensures
        spec_render(spec_tick(spec_tick(v, now), now)) == spec_render(spec_tick(v, now)),
{
    lemma_tick_idempotent(v, now);
}

} // verus!
