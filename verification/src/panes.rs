//! What each pane of the monitor window offers, decided from its pin state,
//! whether it is maximized, and how many panes there are.
use vstd::prelude::*;

verus! {

/// The maximize/restore control of a pane's title bar.
#[derive(Debug, Clone, Copy, PartialEq, Eq, Structural)]
pub enum PaneToggle {
    Maximize,
    Restore,
}

/// The controls of a pane's title bar.
#[derive(Debug, Clone, Copy, PartialEq, Eq, Structural)]
pub struct PaneControls {
    /// The maximize/restore control, shown only when there is more than one pane.
    pub toggle: Option<PaneToggle>,
    /// Whether the close control can be pressed.
    pub close_enabled: bool,
}

/// The body of a pane.
#[derive(Debug, Clone, Copy, PartialEq, Eq, Structural)]
pub enum PaneBody {
    /// A pinned pane shows its widget.
    Widget,
    /// An unpinned pane shows the split buttons, and a close button when it
    /// is not the only pane.
    Layout { close_button: bool },
}

/// The title-bar controls: a toggle (restore when maximized, maximize
/// otherwise) when there is more than one pane, and a close control that can
/// be pressed only on an unpinned pane when there is more than one pane.
pub fn pane_controls(total_panes: usize, is_pinned: bool, is_maximized: bool) -> (c: PaneControls)
    ensures
        c.toggle == (if total_panes > 1 {
            Some(if is_maximized { PaneToggle::Restore } else { PaneToggle::Maximize })
        } else {
            None::<PaneToggle>
        }),
        c.close_enabled == (total_panes > 1 && !is_pinned),
{
    let toggle = if total_panes > 1 {
        if is_maximized {
            Some(PaneToggle::Restore)
        } else {
            Some(PaneToggle::Maximize)
        }
    } else {
        None
    };
    PaneControls { toggle, close_enabled: total_panes > 1 && !is_pinned }
}

/// The body of a pane: its widget when pinned; otherwise the split buttons,
/// with a close button when there is more than one pane.
pub fn pane_body(is_pinned: bool, total_panes: usize) -> (b: PaneBody)
    ensures
        b == (if is_pinned {
            PaneBody::Widget
        } else {
            PaneBody::Layout { close_button: total_panes > 1 }
        }),
{
    if !is_pinned {
        PaneBody::Layout { close_button: total_panes > 1 }
    } else {
        PaneBody::Widget
    }
}

} // verus!
