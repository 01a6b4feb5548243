//! What the shell around a run decides: which entry of the text menu a line
//! picks, which screen of the window is shown, and how a web page is opened
//! on the host.

use vstd::prelude::*;
use vstd::string::StringExecFns;
use crate::prompt::{trimmed, trimmed_chars};

verus! {

/// An entry of the text menu.
#[derive(Clone, Copy, Debug, PartialEq, Eq, Structural)]
pub enum MenuEntry {
    /// Tell about the project.
    About,
    /// Install firmware.
    Install,
    /// Update the firmware.
    Update,
    /// Show the seismometer's settings.
    Settings,
    /// Reset firmware and settings.
    Reset,
    /// Leave the menu.
    Quit,
    /// The line names no entry.
    Invalid,
}

/// The entry that a line picks: the entries are numbered from 1 to 6, and
/// white space around the number does not count.
pub open spec fn menu_entry(line: Seq<char>) -> MenuEntry {
    let typed = trimmed(line);
    if typed == seq!['1'] {
        MenuEntry::About
    } else if typed == seq!['2'] {
        MenuEntry::Install
    } else if typed == seq!['3'] {
        MenuEntry::Update
    } else if typed == seq!['4'] {
        MenuEntry::Settings
    } else if typed == seq!['5'] {
        MenuEntry::Reset
    } else if typed == seq!['6'] {
        MenuEntry::Quit
    } else {
        MenuEntry::Invalid
    }
}

/// Reads the line that the operator typed at the menu.
pub fn read_menu(line: &str) -> (entry: MenuEntry)
    ensures
        entry == menu_entry(line@),
{
    let typed = trimmed_chars(line);
    if typed.len() != 1 {
        return MenuEntry::Invalid;
    }
    let c = typed[0];
    assert(typed@ =~= seq![c]);
    if c == '1' {
        MenuEntry::About
    } else if c == '2' {
        MenuEntry::Install
    } else if c == '3' {
        MenuEntry::Update
    } else if c == '4' {
        MenuEntry::Settings
    } else if c == '5' {
        MenuEntry::Reset
    } else if c == '6' {
        MenuEntry::Quit
    } else {
        MenuEntry::Invalid
    }
}

/// Updates the firmware. Not available yet: nothing is done.
pub fn update() {
}

/// Shows the seismometer's settings. Not available yet: nothing is done.
pub fn settings() {
}

/// Resets firmware and settings. Not available yet: nothing is done.
pub fn reset() {
}

/// A screen of the window.
#[derive(Clone, Copy, Debug, PartialEq, Eq, Structural)]
pub enum Screen {
    Home,
    Settings,
    About,
}

impl Default for Screen {
    /// The window opens on the home screen.
    fn default() -> (screen: Screen)
        ensures
            screen == Screen::Home,
    {
        Screen::Home
    }
}

impl Screen {
    /// The screen to show after the buttons of the side menu have been
    /// looked at: the buttons stand in the order Home, Settings, About, and
    /// where several were clicked in one frame the last of them counts; with
    /// none clicked the screen stays.
    pub open spec fn spec_after_clicks(self, home: bool, settings: bool, about: bool) -> Screen {
        if about {
            Screen::About
        } else if settings {
            Screen::Settings
        } else if home {
            Screen::Home
        } else {
            self
        }
    }

    /// The screen to show after the buttons of the side menu have been
    /// looked at.
    #[verifier::when_used_as_spec(spec_after_clicks)]
    pub fn after_clicks(self, home: bool, settings: bool, about: bool) -> (screen: Screen)
        ensures
            screen == self.spec_after_clicks(home, settings, about),
    {
        let mut screen = self;
        if home {
            screen = Screen::Home;
        }
        if settings {
            screen = Screen::Settings;
        }
        if about {
            screen = Screen::About;
        }
        screen
    }
}

/// The kind of system that the shell runs on.
#[derive(Clone, Copy, Debug, PartialEq, Eq, Structural)]
pub enum HostOs {
    Windows,
    MacOs,
    Linux,
    Other,
}

/// The command that opens `url` in the host's browser, program first, then
/// its arguments; empty where no way is known on the host. On Linux,
/// `desktop` is the name of the desktop session.
pub open spec fn browser_command(os: HostOs, desktop: Seq<char>, url: Seq<char>) -> Seq<Seq<char>> {
    match os {
        HostOs::Windows => seq!["cmd"@, "/C"@, "start "@ + url],
        HostOs::MacOs => seq!["open"@, url],
        HostOs::Linux => if desktop == "GNOME"@ || desktop == "Unity"@ {
            seq!["xdg-open"@, url]
        } else {
            seq!["gnome-open"@, url]
        },
        HostOs::Other => Seq::empty(),
    }
}

/// The command that opens `url` in the host's browser.
pub fn open_url_command(os: HostOs, desktop: &str, url: &str) -> (command: Vec<String>)
    ensures
        command@.map_values(|word: String| word@) == browser_command(os, desktop@, url@),
{
    let mut command: Vec<String> = Vec::new();
    match os {
        HostOs::Windows => {
            command.push("cmd".to_owned());
            command.push("/C".to_owned());
            command.push("start ".to_owned().concat(url));
        },
        HostOs::MacOs => {
            command.push("open".to_owned());
            command.push(url.to_owned());
        },
        HostOs::Linux => {
            let session: String = desktop.to_owned();
            if session == "GNOME".to_owned() || session == "Unity".to_owned() {
                command.push("xdg-open".to_owned());
            } else {
                command.push("gnome-open".to_owned());
            }
            command.push(url.to_owned());
        },
        HostOs::Other => {},
    }
    command
}

} // verus!
