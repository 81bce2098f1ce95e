use ars::engine::{first_source, Source};
use ars::setup::{
    default_socket_path, pass_is_forced, ready_line, refresh_kind, registry_changed, InitKind,
    Layout,
};

#[test]
fn layout_lies_below_the_home_directory() {
    let layout = Layout::below("/home/user");
    assert_eq!(layout.config_dir, "/home/user/.config/ars");
    assert_eq!(layout.lists_dir, "/home/user/.config/ars/lists");
    assert_eq!(layout.engine_file, "/home/user/.config/ars/engine");
    assert_eq!(layout.urls_file, "/home/user/.config/ars/urls");
    assert_eq!(layout.custom_filters_file, "/home/user/.config/ars/lists/custom");
}

#[test]
fn layout_below_an_empty_home() {
    let layout = Layout::below("");
    assert_eq!(layout.config_dir, "/.config/ars");
    assert_eq!(layout.custom_filters_file, "/.config/ars/lists/custom");
}

#[test]
fn only_an_update_forces_the_pass() {
    assert!(!pass_is_forced(InitKind::Startup));
    assert!(!pass_is_forced(InitKind::Reload));
    assert!(pass_is_forced(InitKind::Update));
}

#[test]
fn a_start_goes_by_the_pass_and_commands_always_count_as_changed() {
    assert!(!registry_changed(InitKind::Startup, false));
    assert!(registry_changed(InitKind::Startup, true));
    assert!(registry_changed(InitKind::Reload, false));
    assert!(registry_changed(InitKind::Reload, true));
    assert!(registry_changed(InitKind::Update, false));
    assert!(registry_changed(InitKind::Update, true));
}

#[test]
fn a_refresh_is_an_update_where_forced() {
    assert_eq!(refresh_kind(true), InitKind::Update);
    assert_eq!(refresh_kind(false), InitKind::Reload);
}

#[test]
fn the_cache_comes_first_only_for_an_unchanged_registry_with_a_cache_file() {
    assert_eq!(first_source(false, true), Source::Cache);
    assert_eq!(first_source(false, false), Source::Lists);
    assert_eq!(first_source(true, true), Source::Lists);
    assert_eq!(first_source(true, false), Source::Lists);
}

#[test]
fn commands_never_start_from_the_cache() {
    for force in [false, true] {
        for pass_changed in [false, true] {
            let changed = registry_changed(refresh_kind(force), pass_changed);
            assert_eq!(first_source(changed, true), Source::Lists);
        }
    }
}

#[test]
fn socket_path_and_ready_line() {
    assert_eq!(default_socket_path(), "/tmp/ars");
    assert_eq!(ready_line(), "init-done");
}
