//! The system tray entry of the front end: its identity and its menu.
use vstd::prelude::*;

verus! {

/// What a tray menu entry does when it is chosen.
#[derive(Debug, Clone, Copy, PartialEq, Eq, Structural)]
pub enum TrayAction {
    Open,
    Pause,
    Resume,
    Quit,
}

/// One entry of the tray menu.
#[derive(Debug, Clone)]
pub enum TrayMenuItem {
    /// A labelled entry that runs `action`.
    Standard { label: String, action: TrayAction },
    /// A separator line.
    Separator,
}

/// A menu entry as (label, action), or `None` for a separator.
pub open spec fn item_view(i: TrayMenuItem) -> Option<(Seq<char>, TrayAction)> {
    match i {
        TrayMenuItem::Standard { label, action } => Some((label@, action)),
        TrayMenuItem::Separator => None,
    }
}

/// The tray menu: open, separator, pause, resume, separator, quit.
pub open spec fn tray_menu() -> Seq<Option<(Seq<char>, TrayAction)>> {
    seq![
        Some(("Open Proton Drive"@, TrayAction::Open)),
        None,
        Some(("Pause Sync"@, TrayAction::Pause)),
        Some(("Resume Sync"@, TrayAction::Resume)),
        None,
        Some(("Quit"@, TrayAction::Quit)),
    ]
}

/// The tray icon with the callbacks that its menu entries run.
pub struct PdriveTray<F> {
    pub on_open: F,
    pub on_pause: F,
    pub on_resume: F,
    pub on_quit: F,
}

fn standard(label: &str, action: TrayAction) -> (i: TrayMenuItem)
    ensures
        item_view(i) == Some((label@, action)),
{
    TrayMenuItem::Standard { label: label.to_string(), action }
}

impl<F> PdriveTray<F> {
    /// The callback that `action` runs.
    pub fn callback(&self, action: TrayAction) -> (f: &F)
        ensures
            f == match action {
                TrayAction::Open => &self.on_open,
                TrayAction::Pause => &self.on_pause,
                TrayAction::Resume => &self.on_resume,
                TrayAction::Quit => &self.on_quit,
            },
    {
        match action {
            TrayAction::Open => &self.on_open,
            TrayAction::Pause => &self.on_pause,
            TrayAction::Resume => &self.on_resume,
            TrayAction::Quit => &self.on_quit,
        }
    }

    pub fn id(&self) -> (s: String)
        ensures
            s@ == "pdrive"@,
    {
        "pdrive".to_string()
    }

    pub fn title(&self) -> (s: String)
        ensures
            s@ == "Proton Drive"@,
    {
        "Proton Drive".to_string()
    }

    pub fn icon_name(&self) -> (s: String)
        ensures
            s@ == "network-server"@,
    {
        "network-server".to_string()
    }

    /// The entries of the tray menu, in order.
    pub fn menu(&self) -> (m: Vec<TrayMenuItem>)
        ensures
            m@.map_values(|i: TrayMenuItem| item_view(i)) == tray_menu(),
    {
        let mut m: Vec<TrayMenuItem> = Vec::new();
        m.push(standard("Open Proton Drive", TrayAction::Open));
        m.push(TrayMenuItem::Separator);
        m.push(standard("Pause Sync", TrayAction::Pause));
        m.push(standard("Resume Sync", TrayAction::Resume));
        m.push(TrayMenuItem::Separator);
        m.push(standard("Quit", TrayAction::Quit));
        proof {
            assert(m@.map_values(|i: TrayMenuItem| item_view(i)) =~= tray_menu());
        }
        m
    }
}

} // verus!
