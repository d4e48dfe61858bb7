//! The interaction state machine.
//!
//! The state owns the entry list, the current selection, an optional
//! delete-confirmation sub-state and an optional transient status message.
//! Key events drive it; the caller performs the actual deletion when the
//! machine asks for one and reports the outcome back.  Time is handed in as
//! a plain count of elapsed time units.

use vstd::prelude::*;
use crate::parser::ItemView;
use crate::parser::LoginItem;

verus! {

// ---------------------------------------------------------------------------
// Events and sub-states
// ---------------------------------------------------------------------------

/// One key event, reduced to the codes the machine reacts to.
#[derive(Clone, Copy, Debug, PartialEq, Eq)]
pub enum KeyInput {
    Up,
    Down,
    Left,
    Right,
    Home,
    End,
    Enter,
    Esc,
    Tab,
    Char(char),
    Other,
}

/// The pending choice of a delete confirmation.
#[derive(Clone, Copy, Debug, PartialEq, Eq, Structural)]
pub enum ConfirmChoice {
    Confirm,
    Cancel,
}

/// A pending delete: the captured target index and the current choice.
#[derive(Clone, Copy, Debug, PartialEq, Eq, Structural)]
pub struct ConfirmDialog {
    pub index: usize,
    pub selection: ConfirmChoice,
}

/// What the machine asks of its caller after one key event.
#[derive(Clone, Copy, Debug, PartialEq, Eq, Structural)]
pub enum KeyAction {
    /// Keep the session running; nothing to perform.
    Stay,
    /// End the session.
    Quit,
    /// Perform the deletion of the entry at this index and report back.
    RequestDelete(usize),
}

/// A transient footer message and the instant it was created.
pub struct StatusMessage {
    pub text: String,
    pub created_at: u64,
}

/// The mathematical value of a `StatusMessage`.
pub struct StatusView {
    pub text: Seq<char>,
    pub created_at: u64,
}

impl View for StatusMessage {
    type V = StatusView;

    open spec fn view(&self) -> StatusView {
        StatusView { text: self.text@, created_at: self.created_at }
    }
}

/// The interaction state: entries, selection, confirmation and status.
pub struct App {
    pub items: Vec<LoginItem>,
    pub selected: Option<usize>,
    pub status: Option<StatusMessage>,
    pub confirm: Option<ConfirmDialog>,
}

/// The mathematical value of an `App`.
pub struct AppView {
    pub items: Seq<ItemView>,
    pub selected: Option<usize>,
    pub status: Option<StatusView>,
    pub confirm: Option<ConfirmDialog>,
}

impl View for App {
    type V = AppView;

    open spec fn view(&self) -> AppView {
        AppView {
            items: self.items@.map_values(|it: LoginItem| it@),
            selected: self.selected,
            status: match self.status {
                Some(s) => Some(s@),
                None => None,
            },
            confirm: self.confirm,
        }
    }
}

// ---------------------------------------------------------------------------
// Status texts
// ---------------------------------------------------------------------------

/// How many time units a status message stays visible.
pub open spec fn status_ttl() -> u64 {
    2
}

pub open spec fn msg_confirm_prompt() -> Seq<char> {
    "确认删除选中项?"@
}

pub open spec fn msg_none_to_delete() -> Seq<char> {
    "无可删除的启动项"@
}

pub open spec fn msg_cancelled() -> Seq<char> {
    "已取消删除操作"@
}

pub open spec fn msg_cannot_locate() -> Seq<char> {
    "无法定位所选项"@
}

pub open spec fn msg_no_path() -> Seq<char> {
    "该启动项无可删除路径"@
}

pub open spec fn msg_deleted() -> Seq<char> {
    "已删除启动项"@
}

pub open spec fn msg_delete_failed_prefix() -> Seq<char> {
    "删除失败: "@
}

// ---------------------------------------------------------------------------
// Transitions, as mathematical functions of the state
// ---------------------------------------------------------------------------

/// The starting state for a freshly parsed entry list: the first entry is
/// selected when there is one.
pub open spec fn spec_new_app(items: Seq<ItemView>) -> AppView {
    AppView {
        items,
        selected: if items.len() > 0 {
            Some(0usize)
        } else {
            None
        },
        status: None,
        confirm: None,
    }
}

/// The state with a fresh status message.
pub open spec fn spec_with_status(v: AppView, text: Seq<char>, now: u64) -> AppView {
    AppView { status: Some(StatusView { text, created_at: now }), ..v }
}

/// Selection moved back by one, clamped at the first entry.
pub open spec fn spec_sel_prev(v: AppView) -> AppView {
    match v.selected {
        Some(i) => AppView {
            selected: Some(
                if i == 0 {
                    0usize
                } else {
                    (i - 1) as usize
                },
            ),
            ..v
        },
        None => v,
    }
}

/// Selection moved forward by one, clamped at the last entry.
pub open spec fn spec_sel_next(v: AppView) -> AppView {
    match v.selected {
        Some(i) => {
            let cap = if v.items.len() == 0 {
                0usize
            } else {
                (v.items.len() - 1) as usize
            };
            AppView {
                selected: Some(
                    if (i as int) < cap as int {
                        (i + 1) as usize
                    } else {
                        cap
                    },
                ),
                ..v
            }
        },
        None => v,
    }
}

/// Selection jumped to the first entry, when there is one.
pub open spec fn spec_sel_first(v: AppView) -> AppView {
    if v.items.len() > 0 {
        AppView { selected: Some(0usize), ..v }
    } else {
        v
    }
}

/// Selection jumped to the last entry, when there is one.
pub open spec fn spec_sel_last(v: AppView) -> AppView {
    if v.items.len() > 0 {
        AppView { selected: Some((v.items.len() - 1) as usize), ..v }
    } else {
        v
    }
}

/// Status expiry, evaluated once per frame: a status older than its display
/// duration is cleared, but never while a confirmation is pending.
pub open spec fn spec_tick(v: AppView, now: u64) -> AppView {
    if v.confirm is None && (match v.status {
        Some(s) => now >= s.created_at + status_ttl(),
        None => false,
    }) {
        AppView { status: None, ..v }
    } else {
        v
    }
}

/// A delete prompt: with a selection, capture its index and ask for
/// confirmation; with none, only report that there is nothing to delete.
pub open spec fn spec_prompt_delete(v: AppView, now: u64) -> AppView {
    match v.selected {
        None => spec_with_status(v, msg_none_to_delete(), now),
        Some(i) => spec_with_status(
            AppView { confirm: Some(ConfirmDialog { index: i, selection: ConfirmChoice::Confirm }), ..v },
            msg_confirm_prompt(),
            now,
        ),
    }
}

/// A cancelled confirmation: back to browsing, list untouched.
pub open spec fn spec_cancel_delete(v: AppView, now: u64) -> AppView {
    spec_with_status(AppView { confirm: None, ..v }, msg_cancelled(), now)
}

/// The confirmation's pending choice replaced.
pub open spec fn spec_set_choice(v: AppView, choice: ConfirmChoice) -> AppView {
    match v.confirm {
        Some(c) => AppView {
            confirm: Some(ConfirmDialog { index: c.index, selection: choice }),
            ..v
        },
        None => v,
    }
}

/// The confirmation's pending choice flipped.
pub open spec fn spec_toggle_choice(v: AppView) -> AppView {
    match v.confirm {
        Some(c) => spec_set_choice(
            v,
            match c.selection {
                ConfirmChoice::Confirm => ConfirmChoice::Cancel,
                ConfirmChoice::Cancel => ConfirmChoice::Confirm,
            },
        ),
        None => v,
    }
}

/// A confirmed delete, resolved against the live list by position: an index
/// now out of range or an entry without a location only reports why nothing
/// happens; otherwise the machine asks its caller to delete that entry.
pub open spec fn spec_resolve_delete(v: AppView, now: u64) -> (AppView, KeyAction) {
    match v.confirm {
        None => (v, KeyAction::Stay),
        Some(c) => {
            let v1 = AppView { confirm: None, ..v };
            if c.index >= v.items.len() {
                (spec_with_status(v1, msg_cannot_locate(), now), KeyAction::Stay)
            } else if v.items[c.index as int].path is None {
                (spec_with_status(v1, msg_no_path(), now), KeyAction::Stay)
            } else {
                (v1, KeyAction::RequestDelete(c.index))
            }
        },
    }
}

/// One key while a confirmation is pending.
pub open spec fn spec_confirm_key(v: AppView, key: KeyInput, now: u64) -> (AppView, KeyAction) {
    match v.confirm {
        None => (v, KeyAction::Stay),
        Some(c) => match key {
            KeyInput::Enter => match c.selection {
                ConfirmChoice::Confirm => spec_resolve_delete(v, now),
                ConfirmChoice::Cancel => (spec_cancel_delete(v, now), KeyAction::Stay),
            },
            KeyInput::Char('y') => spec_resolve_delete(v, now),
            KeyInput::Char('n') => (spec_cancel_delete(v, now), KeyAction::Stay),
            KeyInput::Esc => (spec_cancel_delete(v, now), KeyAction::Stay),
            KeyInput::Left => (spec_set_choice(v, ConfirmChoice::Confirm), KeyAction::Stay),
            KeyInput::Up => (spec_set_choice(v, ConfirmChoice::Confirm), KeyAction::Stay),
            KeyInput::Right => (spec_set_choice(v, ConfirmChoice::Cancel), KeyAction::Stay),
            KeyInput::Down => (spec_set_choice(v, ConfirmChoice::Cancel), KeyAction::Stay),
            KeyInput::Tab => (spec_toggle_choice(v), KeyAction::Stay),
            _ => (v, KeyAction::Stay),
        },
    }
}

/// One key while browsing.
pub open spec fn spec_browse_key(v: AppView, key: KeyInput, now: u64) -> (AppView, KeyAction) {
    match key {
        KeyInput::Char('q') => (v, KeyAction::Quit),
        KeyInput::Up => (spec_sel_prev(v), KeyAction::Stay),
        KeyInput::Char('k') => (spec_sel_prev(v), KeyAction::Stay),
        KeyInput::Down => (spec_sel_next(v), KeyAction::Stay),
        KeyInput::Char('j') => (spec_sel_next(v), KeyAction::Stay),
        KeyInput::Home => (spec_sel_first(v), KeyAction::Stay),
        KeyInput::Char('g') => (spec_sel_first(v), KeyAction::Stay),
        KeyInput::End => (spec_sel_last(v), KeyAction::Stay),
        KeyInput::Char('G') => (spec_sel_last(v), KeyAction::Stay),
        KeyInput::Char('d') => (spec_prompt_delete(v, now), KeyAction::Stay),
        _ => (v, KeyAction::Stay),
    }
}

/// One key event: the confirmation handles it while pending, browsing
/// otherwise.
pub open spec fn spec_handle_key(v: AppView, key: KeyInput, now: u64) -> (AppView, KeyAction) {
    if v.confirm is Some {
        spec_confirm_key(v, key, now)
    } else {
        spec_browse_key(v, key, now)
    }
}

/// The selection after a removal at `removed`: none when the list emptied,
/// otherwise the entry that slid into the removed slot, or the new last
/// entry after a removal at the tail.
pub open spec fn spec_fix_selection(v: AppView, removed: int) -> AppView {
    if v.items.len() == 0 {
        AppView { selected: None, ..v }
    } else {
        AppView {
            selected: Some(
                if removed < v.items.len() - 1 {
                    removed as usize
                } else {
                    (v.items.len() - 1) as usize
                },
            ),
            ..v
        }
    }
}

/// The error text of a failed deletion outcome.
pub open spec fn spec_outcome_err(outcome: Result<(), String>) -> Seq<char> {
    match outcome {
        Ok(u) => Seq::empty(),
        Err(e) => e@,
    }
}

/// The state after the caller reports the deletion's outcome: on success
/// the entry leaves the list and the selection is reconciled; on failure
/// the list stands and the failure text is reported.
pub open spec fn spec_finish_delete(v: AppView, index: int, ok: bool, err: Seq<char>, now: u64) -> AppView {
    if ok {
        let pruned = AppView { items: v.items.remove(index), ..v };
        spec_fix_selection(
            spec_with_status(pruned, msg_deleted(), now),
            index,
        )
    } else {
        spec_with_status(v, msg_delete_failed_prefix() + err, now)
    }
}

// ---------------------------------------------------------------------------
// The state itself
// ---------------------------------------------------------------------------

impl App {
    /// Seeds the machine with the parsed entries.
    pub fn new(items: Vec<LoginItem>) -> (r: App)
        ensures
            r@ == spec_new_app(items@.map_values(|it: LoginItem| it@)),
    {
        let selected = if items.len() > 0 {
            Some(0usize)
        } else {
            None
        };
        App { items, selected, status: None, confirm: None }
    }

    /// Replaces the status message, stamping it with the given instant.
    pub fn set_status(&mut self, text: String, now: u64)
        ensures
            final(self)@ == spec_with_status(old(self)@, text@, now),
    {
        self.status = Some(StatusMessage { text, created_at: now });
    }

    /// Clears a stale status message; a pending confirmation keeps its
    /// message regardless of age.
    pub fn prune_status(&mut self, now: u64)
        ensures
            final(self)@ == spec_tick(old(self)@, now),
    {
        if self.confirm.is_some() {
            return ;
        }
        let expired = match &self.status {
            Some(s) => now >= s.created_at && now - s.created_at >= 2,
            None => false,
        };
        if expired {
            self.status = None;
        }
    }

    /// Moves the selection back by one, clamped at the first entry.
    pub fn select_previous(&mut self)
        ensures
            final(self)@ == spec_sel_prev(old(self)@),
    {
        match self.selected {
            Some(current) => {
                let next = if current == 0 {
                    0
                } else {
                    current - 1
                };
                self.selected = Some(next);
            },
            None => {},
        }
    }

    /// Moves the selection forward by one, clamped at the last entry.
    pub fn select_next(&mut self)
        ensures
            final(self)@ == spec_sel_next(old(self)@),
    {
        match self.selected {
            Some(current) => {
                let cap = if self.items.len() == 0 {
                    0
                } else {
                    self.items.len() - 1
                };
                let next = if current < cap {
                    current + 1
                } else {
                    cap
                };
                self.selected = Some(next);
            },
            None => {},
        }
    }

    /// Jumps the selection to the first entry, when there is one.
    pub fn select_first(&mut self)
        ensures
            final(self)@ == spec_sel_first(old(self)@),
    {
        if self.items.len() > 0 {
            self.selected = Some(0);
        }
    }

    /// Jumps the selection to the last entry, when there is one.
    pub fn select_last(&mut self)
        ensures
            final(self)@ == spec_sel_last(old(self)@),
    {
        if self.items.len() > 0 {
            self.selected = Some(self.items.len() - 1);
        }
    }

    /// Opens the delete confirmation for the current selection, or reports
    /// that there is nothing to delete.
    pub fn prompt_delete(&mut self, now: u64)
        ensures
            final(self)@ == spec_prompt_delete(old(self)@, now),
    {
        match self.selected {
            None => {
                self.set_status("无可删除的启动项".to_owned(), now);
            },
            Some(index) => {
                self.confirm = Some(
                    ConfirmDialog { index, selection: ConfirmChoice::Confirm },
                );
                self.set_status("确认删除选中项?".to_owned(), now);
            },
        }
    }

    /// Aborts a pending confirmation, leaving the list untouched.
    pub fn cancel_delete(&mut self, now: u64)
        ensures
            final(self)@ == spec_cancel_delete(old(self)@, now),
    {
        self.confirm = None;
        self.set_status("已取消删除操作".to_owned(), now);
    }

    /// The pending choice of the confirmation, if one is open.
    pub fn confirm_choice(&self) -> (r: Option<ConfirmChoice>)
        ensures
            r == (match self@.confirm {
                Some(c) => Some(c.selection),
                None => None::<ConfirmChoice>,
            }),
    {
        match self.confirm {
            Some(c) => Some(c.selection),
            None => None,
        }
    }

    /// Replaces the pending choice, if a confirmation is open.
    pub fn set_confirm_choice(&mut self, choice: ConfirmChoice)
        ensures
            final(self)@ == spec_set_choice(old(self)@, choice),
    {
        match self.confirm {
            Some(c) => {
                self.confirm = Some(ConfirmDialog { index: c.index, selection: choice });
            },
            None => {},
        }
    }

    /// Flips the pending choice, if a confirmation is open.
    pub fn toggle_confirm_choice(&mut self)
        ensures
            final(self)@ == spec_toggle_choice(old(self)@),
    {
        match self.confirm {
            Some(c) => {
                let flipped = match c.selection {
                    ConfirmChoice::Confirm => ConfirmChoice::Cancel,
                    ConfirmChoice::Cancel => ConfirmChoice::Confirm,
                };
                self.confirm = Some(ConfirmDialog { index: c.index, selection: flipped });
            },
            None => {},
        }
    }

    /// Resolves a confirmed delete against the live list by position, and
    /// asks the caller to perform it when the target has a location.
    pub fn apply_delete(&mut self, now: u64) -> (r: KeyAction)
        ensures
            final(self)@ == spec_resolve_delete(old(self)@, now).0,
            r == spec_resolve_delete(old(self)@, now).1,
    {
        let c = match self.confirm {
            Some(c) => c,
            None => {
                return KeyAction::Stay;
            },
        };
        self.confirm = None;
        if c.index >= self.items.len() {
            self.set_status("无法定位所选项".to_owned(), now);
            KeyAction::Stay
        } else if self.items[c.index].path.is_none() {
            self.set_status("该启动项无可删除路径".to_owned(), now);
            KeyAction::Stay
        } else {
            KeyAction::RequestDelete(c.index)
        }
    }

    /// One key while a confirmation is pending.
    pub fn handle_confirm(&mut self, key: KeyInput, now: u64) -> (r: KeyAction)
        ensures
            final(self)@ == spec_confirm_key(old(self)@, key, now).0,
            r == spec_confirm_key(old(self)@, key, now).1,
    {
        if self.confirm.is_none() {
            return KeyAction::Stay;
        }
        match key {
            KeyInput::Enter => {
                let choice = self.confirm_choice();
                match choice {
                    Some(ConfirmChoice::Confirm) => self.apply_delete(now),
                    _ => {
                        self.cancel_delete(now);
                        KeyAction::Stay
                    },
                }
            },
            KeyInput::Char('y') => self.apply_delete(now),
            KeyInput::Char('n') | KeyInput::Esc => {
                self.cancel_delete(now);
                KeyAction::Stay
            },
            KeyInput::Left | KeyInput::Up => {
                self.set_confirm_choice(ConfirmChoice::Confirm);
                KeyAction::Stay
            },
            KeyInput::Right | KeyInput::Down => {
                self.set_confirm_choice(ConfirmChoice::Cancel);
                KeyAction::Stay
            },
            KeyInput::Tab => {
                self.toggle_confirm_choice();
                KeyAction::Stay
            },
            _ => KeyAction::Stay,
        }
    }

    /// One key event: what the machine does and what it asks of its caller.
    pub fn handle_key(&mut self, key: KeyInput, now: u64) -> (r: KeyAction)
        ensures
            final(self)@ == spec_handle_key(old(self)@, key, now).0,
            r == spec_handle_key(old(self)@, key, now).1,
    {
        if self.confirm.is_some() {
            return self.handle_confirm(key, now);
        }
        match key {
            KeyInput::Char('q') => KeyAction::Quit,
            KeyInput::Up | KeyInput::Char('k') => {
                self.select_previous();
                KeyAction::Stay
            },
            KeyInput::Down | KeyInput::Char('j') => {
                self.select_next();
                KeyAction::Stay
            },
            KeyInput::Home | KeyInput::Char('g') => {
                self.select_first();
                KeyAction::Stay
            },
            KeyInput::End | KeyInput::Char('G') => {
                self.select_last();
                KeyAction::Stay
            },
            KeyInput::Char('d') => {
                self.prompt_delete(now);
                KeyAction::Stay
            },
            _ => KeyAction::Stay,
        }
    }

    /// Takes the outcome of the deletion the machine asked for: on success
    /// the entry leaves the list and the selection is reconciled, on
    /// failure the list stands and the failure is reported.
    pub fn finish_delete(&mut self, index: usize, outcome: Result<(), String>, now: u64)
        requires
            index < old(self)@.items.len(),
        ensures
            final(self)@ == spec_finish_delete(
                old(self)@,
                index as int,
                outcome is Ok,
                spec_outcome_err(outcome),
                now,
            ),
    {
        match outcome {
            Ok(_) => {
                let ghost old_items = self.items@.map_values(|it: LoginItem| it@);
                self.items.remove(index);
                proof {
                    assert(self.items@.map_values(|it: LoginItem| it@) =~= old_items.remove(
                        index as int,
                    ));
                }
                self.set_status("已删除启动项".to_owned(), now);
                self.fix_selection(index);
            },
            Err(e) => {
                let mut text = "删除失败: ".to_owned();
                text.append(e.as_str());
                self.set_status(text, now);
            },
        }
    }

    /// Reconciles the selection after a removal at `removed_index`.
    pub fn fix_selection(&mut self, removed_index: usize)
        ensures
            final(self)@ == spec_fix_selection(old(self)@, removed_index as int),
    {
        if self.items.len() == 0 {
            self.selected = None;
        } else {
            let last = self.items.len() - 1;
            self.selected = Some(
                if removed_index < last {
                    removed_index
                } else {
                    last
                },
            );
        }
    }
}

// ---------------------------------------------------------------------------
// Laws
// ---------------------------------------------------------------------------

/// The selection invariant: a valid index whenever the list is non-empty,
/// none when it is empty.
pub open spec fn app_inv(v: AppView) -> bool {
    match v.selected {
        Some(i) => i < v.items.len(),
        None => v.items.len() == 0,
    }
}

/// A fresh machine satisfies the selection invariant.
pub proof fn lemma_new_inv(items: Seq<ItemView>)
    ensures
        app_inv(spec_new_app(items)),
{
}

/// Every key event preserves the selection invariant.
pub proof fn lemma_handle_key_inv(v: AppView, key: KeyInput, now: u64)
    requires
        app_inv(v),
    ensures
        app_inv(spec_handle_key(v, key, now).0),
{
}

/// A reported deletion outcome preserves the selection invariant.
pub proof fn lemma_finish_delete_inv(v: AppView, index: int, ok: bool, err: Seq<char>, now: u64)
    requires
        app_inv(v),
        0 <= index < v.items.len(),
    ensures
        app_inv(spec_finish_delete(v, index, ok, err, now)),
{
}

/// Status expiry preserves the selection invariant.
pub proof fn lemma_tick_inv(v: AppView, now: u64)
    requires
        app_inv(v),
    ensures
        app_inv(spec_tick(v, now)),
{
}

/// The state a whole sequence of key events leads to.
pub open spec fn spec_run_keys(v: AppView, keys: Seq<KeyInput>, now: u64) -> AppView
    decreases keys.len(),
{
    if keys.len() == 0 {
        v
    } else {
        spec_run_keys(spec_handle_key(v, keys[0], now).0, keys.skip(1), now)
    }
}

/// After any sequence of key events, the selection is still a valid index
/// when the list is non-empty, and none when it is empty.
pub proof fn lemma_selection_invariant(v: AppView, keys: Seq<KeyInput>, now: u64)
    requires
        app_inv(v),
    ensures
        app_inv(spec_run_keys(v, keys, now)),
    decreases keys.len(),
{
    if keys.len() == 0 {
    } else {
        lemma_handle_key_inv(v, keys[0], now);
        lemma_selection_invariant(spec_handle_key(v, keys[0], now).0, keys.skip(1), now);
    }
}

} // verus!
