use corelia::error::with_context;
use corelia::error::AppError;

#[test]
fn test_error_display() {
    let err = AppError::Window("窗口未找到".to_string());
    assert_eq!(err.to_display_string(), "窗口错误：窗口未找到");
}

#[test]
fn test_error_conversion() {
    let err = AppError::Store("存储失败".to_string());
    let msg: String = err.into();
    assert_eq!(msg, "存储错误：存储失败");
}

#[test]
fn test_error_display_every_variant() {
    assert_eq!(AppError::Shortcut("x".to_string()).to_display_string(), "快捷键错误：x");
    assert_eq!(AppError::Autostart("y".to_string()).to_display_string(), "启动项错误：y");
    assert_eq!(AppError::Js("z".to_string()).to_display_string(), "JS 错误：z");
    assert_eq!(AppError::Generic("w".to_string()).to_display_string(), "错误：w");
}

#[test]
fn test_with_context_wraps_error() {
    let r: Result<u32, String> = Err("disk full".to_string());
    match with_context(r, "saving") {
        Err(AppError::Generic(m)) => assert_eq!(m, "saving: disk full"),
        other => panic!("unexpected {:?}", other),
    }
    let ok: Result<u32, String> = Ok(7);
    assert_eq!(with_context(ok, "saving").unwrap(), 7);
}
