//! The service unit that is generated for an installed app.

use vstd::prelude::*;
use vstd::string::*;

verus! {

/// The descriptor of one app's service: restarted always, five seconds after
/// it stopped, with its output sent to the journal.
#[derive(Debug, PartialEq, Eq)]
pub struct ServiceUnit {
    /// What the service manager shows for the unit.
    pub description: String,
    /// The directory the command runs in.
    pub working_directory: String,
    /// The command that is the service.
    pub exec_start: String,
}

/// The mathematical value of a [`ServiceUnit`].
pub struct ServiceUnitView {
    pub description: Seq<char>,
    pub working_directory: Seq<char>,
    pub exec_start: Seq<char>,
}

impl View for ServiceUnit {
    type V = ServiceUnitView;

    open spec fn view(&self) -> ServiceUnitView {
        ServiceUnitView {
            description: self.description@,
            working_directory: self.working_directory@,
            exec_start: self.exec_start@,
        }
    }
}

/// The description of the unit of the app checked out into `folder`.
pub open spec fn description_of(folder: Seq<char>) -> Seq<char> {
    folder + " (Installed with SentryX)"@
}

/// The unit of the app checked out into `folder` at `checkout`, run by
/// `command`.
pub open spec fn unit_of(folder: Seq<char>, checkout: Seq<char>, command: Seq<char>)
    -> ServiceUnitView {
    ServiceUnitView {
        description: description_of(folder),
        working_directory: checkout,
        exec_start: command,
    }
}

/// The text of the unit file for `unit`.
pub open spec fn unit_text(unit: ServiceUnitView) -> Seq<char> {
    "[Unit]\nDescription="@ + unit.description + "\nAfter=network.target\n\n[Service]\nWorkingDirectory="@
        + unit.working_directory + "\nExecStart="@ + unit.exec_start
        + "\nRestart=always\nRestartSec=5\nStandardOutput=journal\nStandardError=journal\n\n[Install]\nWantedBy=multi-user.target"@
}

impl ServiceUnit {
    /// The unit of the app checked out into `folder` at `checkout`, run by
    /// `command`.
    pub fn new(folder: &str, checkout: &str, command: &str) -> (unit: ServiceUnit)
        ensures
            unit@ == unit_of(folder@, checkout@, command@),
    {
        ServiceUnit {
            description: folder.to_owned().concat(" (Installed with SentryX)"),
            working_directory: checkout.to_owned(),
            exec_start: command.to_owned(),
        }
    }

    /// The text of the unit file.
    pub fn render(&self) -> (text: String)
        ensures
            text@ == unit_text(self@),
    {
        let text = "[Unit]\nDescription=".to_owned();
        let text = text.concat(self.description.as_str());
        let text = text.concat("\nAfter=network.target\n\n[Service]\nWorkingDirectory=");
        let text = text.concat(self.working_directory.as_str());
        let text = text.concat("\nExecStart=");
        let text = text.concat(self.exec_start.as_str());
        text.concat(
            "\nRestart=always\nRestartSec=5\nStandardOutput=journal\nStandardError=journal\n\n[Install]\nWantedBy=multi-user.target",
        )
    }
}

} // verus!
