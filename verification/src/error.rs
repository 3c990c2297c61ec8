//! Application error type and its messages.

use vstd::prelude::*;
use vstd::string::*;
use crate::text::concat2;
use crate::text::concat3;

verus! {

/// Application-level error, one variant per subsystem, each with a message.
#[derive(Debug)]
pub enum AppError {
    Window(String),
    Shortcut(String),
    Store(String),
    Autostart(String),
    Js(String),
    Generic(String),
}

impl AppError {
    /// The text that the error displays: a subsystem label and the message.
    pub open spec fn display_text(self) -> Seq<char> {
        match self {
            AppError::Window(m) => "窗口错误："@ + m@,
            AppError::Shortcut(m) => "快捷键错误："@ + m@,
            AppError::Store(m) => "存储错误："@ + m@,
            AppError::Autostart(m) => "启动项错误："@ + m@,
            AppError::Js(m) => "JS 错误："@ + m@,
            AppError::Generic(m) => "错误："@ + m@,
        }
    }

    /// Renders the error as its display text.
    pub fn to_display_string(&self) -> (s: String)
        ensures
            s@ == self.display_text(),
    {
        match self {
            AppError::Window(m) => concat2("窗口错误：", m.as_str()),
            AppError::Shortcut(m) => concat2("快捷键错误：", m.as_str()),
            AppError::Store(m) => concat2("存储错误：", m.as_str()),
            AppError::Autostart(m) => concat2("启动项错误：", m.as_str()),
            AppError::Js(m) => concat2("JS 错误：", m.as_str()),
            AppError::Generic(m) => concat2("错误：", m.as_str()),
        }
    }
}

impl From<AppError> for String {
    fn from(err: AppError) -> (s: String)
        ensures
            s@ == err.display_text(),
    {
        err.to_display_string()
    }
}

impl vstd::std_specs::convert::FromSpecImpl<AppError> for String {
    open spec fn obeys_from_spec() -> bool {
        false
    }

    open spec fn from_spec(err: AppError) -> String {
        choose|s: String| s@ == err.display_text()
    }
}

/// Wraps the error of a result in `AppError::Generic`, prefixed by a context.
pub fn with_context<T>(result: Result<T, String>, context: &str) -> (r: Result<T, AppError>)
    ensures
        match result {
            Ok(v) => r == Ok::<T, AppError>(v),
            Err(e) => r matches Err(AppError::Generic(m)) && m@ == context@ + ": "@ + e@,
        },
{
    match result {
        Ok(v) => Ok(v),
        Err(e) => Err(AppError::Generic(concat3(context, ": ", e.as_str()))),
    }
}

} // verus!
