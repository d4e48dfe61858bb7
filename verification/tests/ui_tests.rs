use login_items::parser::LoginItem;
use login_items::render::render_model;
use login_items::ui::App;
use login_items::ui::ConfirmChoice;
use login_items::ui::KeyAction;
use login_items::ui::KeyInput;

fn item(name: &str, path: Option<&str>) -> LoginItem {
    LoginItem {
        name: name.to_string(),
        path: path.map(|p| p.to_string()),
    }
}

fn sample_app() -> App {
    App::new(vec![
        item("alpha", Some("/tmp/alpha")),
        item("beta", None),
        item("gamma", Some("/tmp/gamma")),
    ])
}

#[test]
fn new_app_selects_first_entry() {
    let app = sample_app();
    assert_eq!(app.selected, Some(0));
    assert!(app.status.is_none());
    assert!(app.confirm.is_none());

    let empty = App::new(Vec::new());
    assert_eq!(empty.selected, None);
}

#[test]
fn navigation_clamps_at_both_ends() {
    let mut app = sample_app();
    app.handle_key(KeyInput::Up, 0);
    assert_eq!(app.selected, Some(0));
    app.handle_key(KeyInput::Down, 0);
    assert_eq!(app.selected, Some(1));
    app.handle_key(KeyInput::Char('j'), 0);
    assert_eq!(app.selected, Some(2));
    app.handle_key(KeyInput::Down, 0);
    assert_eq!(app.selected, Some(2));
    app.handle_key(KeyInput::Char('k'), 0);
    assert_eq!(app.selected, Some(1));
    app.handle_key(KeyInput::Home, 0);
    assert_eq!(app.selected, Some(0));
    app.handle_key(KeyInput::End, 0);
    assert_eq!(app.selected, Some(2));
    app.handle_key(KeyInput::Char('g'), 0);
    assert_eq!(app.selected, Some(0));
    app.handle_key(KeyInput::Char('G'), 0);
    assert_eq!(app.selected, Some(2));
}

#[test]
fn quit_key_requests_quit() {
    let mut app = sample_app();
    assert_eq!(app.handle_key(KeyInput::Char('q'), 0), KeyAction::Quit);
}

#[test]
fn delete_only_entry_empties_list_and_selection() {
    // Scenario: the sole entry has a valid location and the deletion succeeds.
    let mut app = App::new(vec![item("only", Some("/tmp/only"))]);
    assert_eq!(app.handle_key(KeyInput::Char('d'), 0), KeyAction::Stay);
    assert!(app.confirm.is_some());
    let action = app.handle_key(KeyInput::Enter, 0);
    assert_eq!(action, KeyAction::RequestDelete(0));
    app.finish_delete(0, Ok(()), 0);
    assert!(app.items.is_empty());
    assert_eq!(app.selected, None);
    assert_eq!(app.status.as_ref().map(|s| s.text.as_str()), Some("已删除启动项"));
}

#[test]
fn delete_with_empty_list_only_reports() {
    // Scenario: the delete key with no selection enters no confirmation.
    let mut app = App::new(Vec::new());
    assert_eq!(app.handle_key(KeyInput::Char('d'), 0), KeyAction::Stay);
    assert!(app.confirm.is_none());
    assert!(app.items.is_empty());
    assert_eq!(app.selected, None);
    assert_eq!(
        app.status.as_ref().map(|s| s.text.as_str()),
        Some("无可删除的启动项")
    );
}

#[test]
fn cancelled_confirmation_leaves_list_unmodified() {
    // Scenario: enter confirmation, toggle the choice to cancel, press Enter.
    let mut app = sample_app();
    app.handle_key(KeyInput::Char('d'), 0);
    assert!(app.confirm.is_some());
    app.handle_key(KeyInput::Tab, 0);
    assert_eq!(app.confirm.as_ref().map(|c| c.selection), Some(ConfirmChoice::Cancel));
    let action = app.handle_key(KeyInput::Enter, 0);
    assert_eq!(action, KeyAction::Stay);
    assert!(app.confirm.is_none());
    assert_eq!(app.items.len(), 3);
    assert_eq!(
        app.status.as_ref().map(|s| s.text.as_str()),
        Some("已取消删除操作")
    );
}

#[test]
fn confirm_choice_keys_set_and_toggle() {
    let mut app = sample_app();
    app.handle_key(KeyInput::Char('d'), 0);
    assert_eq!(app.confirm.as_ref().map(|c| c.selection), Some(ConfirmChoice::Confirm));
    app.handle_key(KeyInput::Right, 0);
    assert_eq!(app.confirm.as_ref().map(|c| c.selection), Some(ConfirmChoice::Cancel));
    app.handle_key(KeyInput::Left, 0);
    assert_eq!(app.confirm.as_ref().map(|c| c.selection), Some(ConfirmChoice::Confirm));
    app.handle_key(KeyInput::Down, 0);
    assert_eq!(app.confirm.as_ref().map(|c| c.selection), Some(ConfirmChoice::Cancel));
    app.handle_key(KeyInput::Up, 0);
    assert_eq!(app.confirm.as_ref().map(|c| c.selection), Some(ConfirmChoice::Confirm));
    app.handle_key(KeyInput::Tab, 0);
    assert_eq!(app.confirm.as_ref().map(|c| c.selection), Some(ConfirmChoice::Cancel));
}

#[test]
fn escape_and_n_cancel_confirmation() {
    let mut app = sample_app();
    app.handle_key(KeyInput::Char('d'), 0);
    app.handle_key(KeyInput::Esc, 0);
    assert!(app.confirm.is_none());
    assert_eq!(app.items.len(), 3);

    app.handle_key(KeyInput::Char('d'), 0);
    app.handle_key(KeyInput::Char('n'), 0);
    assert!(app.confirm.is_none());
    assert_eq!(app.items.len(), 3);
}

#[test]
fn deleting_entry_without_location_only_reports() {
    let mut app = sample_app();
    app.handle_key(KeyInput::Down, 0); // select "beta", which has no path
    app.handle_key(KeyInput::Char('d'), 0);
    let action = app.handle_key(KeyInput::Char('y'), 0);
    assert_eq!(action, KeyAction::Stay);
    assert_eq!(app.items.len(), 3);
    assert!(app.confirm.is_none());
    assert_eq!(
        app.status.as_ref().map(|s| s.text.as_str()),
        Some("该启动项无可删除路径")
    );
}

#[test]
fn failed_deletion_keeps_list_and_reports_error() {
    let mut app = sample_app();
    app.handle_key(KeyInput::Char('d'), 0);
    let action = app.handle_key(KeyInput::Enter, 0);
    assert_eq!(action, KeyAction::RequestDelete(0));
    app.finish_delete(0, Err("permission denied".to_string()), 0);
    assert_eq!(app.items.len(), 3);
    assert_eq!(app.selected, Some(0));
    assert_eq!(
        app.status.as_ref().map(|s| s.text.as_str()),
        Some("删除失败: permission denied")
    );
}

#[test]
fn selection_slides_into_removed_slot() {
    let mut app = sample_app();
    // delete the last entry: the selection moves to the new last entry
    app.handle_key(KeyInput::End, 0);
    app.handle_key(KeyInput::Char('d'), 0);
    let action = app.handle_key(KeyInput::Enter, 0);
    assert_eq!(action, KeyAction::RequestDelete(2));
    app.finish_delete(2, Ok(()), 0);
    assert_eq!(app.items.len(), 2);
    assert_eq!(app.selected, Some(1));
}

#[test]
fn status_expires_after_display_duration() {
    let mut app = sample_app();
    app.handle_key(KeyInput::Char('d'), 10);
    app.handle_key(KeyInput::Esc, 10);
    assert!(app.status.is_some());
    app.prune_status(11);
    assert!(app.status.is_some());
    app.prune_status(12);
    assert!(app.status.is_none());
}

#[test]
fn pending_confirmation_keeps_its_status() {
    let mut app = sample_app();
    app.handle_key(KeyInput::Char('d'), 10);
    assert!(app.confirm.is_some());
    app.prune_status(100);
    assert!(app.status.is_some());
}

#[test]
fn render_is_repeatable_without_key_events() {
    let mut app = sample_app();
    app.handle_key(KeyInput::Down, 0);
    app.handle_key(KeyInput::Char('d'), 0);
    app.prune_status(1);
    let first = render_model(&app);
    app.prune_status(1);
    let second = render_model(&app);
    assert_eq!(first, second);
}

#[test]
fn render_model_projects_rows_footer_and_modal() {
    let mut app = sample_app();
    let model = render_model(&app);
    assert_eq!(model.rows.len(), 3);
    assert_eq!(model.rows[0].name, "alpha");
    assert_eq!(model.rows[0].path, "/tmp/alpha");
    assert_eq!(model.rows[1].name, "beta");
    assert_eq!(model.rows[1].path, "—");
    assert_eq!(model.selected, Some(0));
    assert!(model.modal.is_none());
    assert_eq!(model.footer, "↑/↓ 选择  d 删除  q 退出   Home/End 跳转到首项/末项");

    app.handle_key(KeyInput::Char('d'), 0);
    let confirming = render_model(&app);
    let modal = confirming.modal.expect("confirmation should raise the overlay");
    assert_eq!(modal.target, "alpha");
    assert_eq!(modal.highlighted, ConfirmChoice::Confirm);
    assert_eq!(modal.confirm_label, "Y 确认");
    assert_eq!(modal.cancel_label, "N 取消");
    assert_eq!(confirming.footer, "确认删除选中项?");
}

#[test]
fn status_text_takes_the_footer_over_the_hint() {
    let mut app = sample_app();
    app.handle_key(KeyInput::Char('d'), 0);
    app.handle_key(KeyInput::Esc, 0);
    let model = render_model(&app);
    assert_eq!(model.footer, "已取消删除操作");
}
