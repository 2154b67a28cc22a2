//! Events for the window runner, the UI navigation handler that forwards
//! controller actions to a visible webview, and the address the webview
//! loads.
use vstd::prelude::*;
use crate::text::{decimal, push_decimal};

verus! {

/// A navigation action coming from the controller.
#[derive(Debug, Clone, Copy, PartialEq, Eq, Structural)]
pub enum UiControllerAction {
    Next,
    Previous,
    Activate,
    Back,
}

/// An event sent to the window runner.
#[derive(Debug, Clone, Copy, PartialEq, Eq, Structural)]
pub enum WindowRunnerEvent {
    SetFullscreen(bool),
    ShowWindow,
    HideWindow,
    /// Show (`Some(true)`), hide (`Some(false)`) or toggle (`None`) the UI.
    ToggleUi(Option<bool>),
    UiControllerAction(UiControllerAction),
}

/// The kinds of window runner events a handler can listen to.
#[derive(Debug, Clone, Copy, PartialEq, Eq, Structural)]
pub enum WindowEventKind {
    SetFullscreen,
    ShowWindow,
    HideWindow,
    ToggleUi,
    UiControllerAction,
}

/// Forwards controller navigation to the webview while it is visible.
pub struct Handler {}

impl Handler {
    /// The action to hand to the webview for `event`, given whether there is
    /// a webview (`None` when there is none) and whether it is visible: the
    /// event's action when it is a controller action and the webview is
    /// visible, else nothing.
    pub fn handle_event(&self, event: &WindowRunnerEvent, webview_visible: Option<bool>) -> (r: Option<UiControllerAction>)
        ensures
            r == match *event {
                WindowRunnerEvent::UiControllerAction(a) => if webview_visible == Some(true) {
                    Some(a)
                } else {
                    None
                },
                _ => None,
            },
    {
        let action = match event {
            WindowRunnerEvent::UiControllerAction(a) => *a,
            _ => {
                return None;
            },
        };
        match webview_visible {
            Some(true) => Some(action),
            _ => None,
        }
    }

    /// The events this handler listens to: controller actions.
    pub fn listen_events(&self) -> (r: Vec<WindowEventKind>)
        ensures
            r@ == seq![WindowEventKind::UiControllerAction],
    {
        let r = vec![WindowEventKind::UiControllerAction];
        assert(r@ =~= seq![WindowEventKind::UiControllerAction]);
        r
    }
}

/// The address the webview loads: the development server in development
/// mode, else the local API server on its port (5173 when it has none).
pub open spec fn webview_url_spec(dev: bool, api_port: Option<u16>) -> Seq<char> {
    if dev {
        "http://localhost:5173/"@
    } else {
        "http://localhost:"@ + decimal(
            match api_port {
                Some(p) => p as nat,
                None => 5173,
            },
        ) + "/"@
    }
}

/// The address the webview loads.
pub fn webview_url(dev: bool, api_port: Option<u16>) -> (r: String)
    ensures
        r@ == webview_url_spec(dev, api_port),
{
    if dev {
        return String::from_str("http://localhost:5173/");
    }
    let port: u16 = match api_port {
        Some(p) => p,
        None => 5173,
    };
    let mut r = String::from_str("http://localhost:");
    push_decimal(&mut r, port as u64);
    r.append("/");
    r
}

/// The kind of native window handle the webview is built into.
#[derive(Debug, Clone, Copy, PartialEq, Eq, Structural)]
pub enum WindowHandleKind {
    Xlib,
    Wayland,
    Other,
}

/// On Linux the webview is built into an Xlib window only; any other handle
/// is an error.
pub fn linux_webview_supported(kind: WindowHandleKind) -> (r: bool)
    ensures
        r == (kind == WindowHandleKind::Xlib),
{
    match kind {
        WindowHandleKind::Xlib => true,
        _ => false,
    }
}

} // verus!
