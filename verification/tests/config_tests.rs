use textbook_downloader::{menu_action, AppConfig, AppError, LogLevel, MenuAction, AppState};

#[test]
fn test_app_config_default() {
    let config = AppConfig::default();
    assert!(config.debug_logging);
    assert_eq!(config.log_level, LogLevel::Debug);
}

#[test]
fn test_app_error_conversion() {
    let error = AppError::ValidationError("测试错误".to_string());
    let error_string: String = error.into();
    assert!(error_string.contains("参数验证失败"));
}

#[test]
fn app_error_messages() {
    let e = AppError::NetworkError("boom".to_string());
    assert_eq!(e.message(), "网络请求失败: boom");
    assert_eq!(AppError::DownloadCancelled.message(), "下载被取消");
    let g = AppError::Generic("x".to_string());
    assert_eq!(g.message(), "应用程序错误: x");
    assert_eq!(AppError::JsonError("j".to_string()).message(), "JSON 解析失败: j");
    assert_eq!(AppError::IoError("i".to_string()).message(), "文件操作失败: i");
    assert_eq!(AppError::UrlError("u".to_string()).message(), "URL 解析失败: u");
}

#[test]
fn app_state_caches_category() {
    let mut state = AppState::new();
    assert_eq!(state.get_cached_category_id(), None);
    state.set_cached_category_id(Some("cat1".to_string()));
    assert_eq!(state.get_cached_category_id(), Some("cat1".to_string()));
    state.set_cached_category_id(None);
    assert_eq!(state.get_cached_category_id(), None);
}

#[test]
fn menu_actions_dispatch() {
    assert_eq!(menu_action("about"), MenuAction::ShowAbout);
    assert_eq!(menu_action("macos:about"), MenuAction::ShowAbout);
    assert_eq!(menu_action("quit"), MenuAction::Quit);
    assert_eq!(menu_action("tray:quit"), MenuAction::Quit);
    assert_eq!(menu_action("resize"), MenuAction::NoAction);
}

#[test]
fn app_state_default_is_empty() {
    let state = AppState::default();
    assert_eq!(state.get_cached_category_id(), None);
}
