//! Where the host keeps checkouts, the registry file and service units, below
//! the home directory of the user that runs the apps.

use vstd::prelude::*;
use vstd::string::*;

verus! {

/// The directory of all checkouts.
pub open spec fn apps_dir_in(home: Seq<char>) -> Seq<char> {
    home + "/sentryx/apps"@
}

/// The registry file.
pub open spec fn apps_file_in(home: Seq<char>) -> Seq<char> {
    apps_dir_in(home) + "/apps.json"@
}

/// The checkout directory named `folder`.
pub open spec fn checkout_in(home: Seq<char>, folder: Seq<char>) -> Seq<char> {
    apps_dir_in(home) + "/"@ + folder
}

/// The directory of the service units.
pub open spec fn units_dir_in(home: Seq<char>) -> Seq<char> {
    home + "/.config/systemd/user"@
}

/// The unit file of the service named `system_id`.
pub open spec fn unit_file_in(home: Seq<char>, system_id: Seq<char>) -> Seq<char> {
    units_dir_in(home) + "/"@ + system_id + ".service"@
}

/// The directory of all checkouts.
pub fn apps_dir(home: &str) -> (path: String)
    ensures
        path@ == apps_dir_in(home@),
{
    home.to_owned().concat("/sentryx/apps")
}

/// The registry file.
pub fn apps_file_path(home: &str) -> (path: String)
    ensures
        path@ == apps_file_in(home@),
{
    apps_dir(home).concat("/apps.json")
}

/// The checkout directory named `folder`.
pub fn checkout_path(home: &str, folder: &str) -> (path: String)
    ensures
        path@ == checkout_in(home@, folder@),
{
    apps_dir(home).concat("/").concat(folder)
}

/// The directory of the service units.
pub fn units_dir(home: &str) -> (path: String)
    ensures
        path@ == units_dir_in(home@),
{
    home.to_owned().concat("/.config/systemd/user")
}

/// The unit file of the service named `system_id`.
pub fn unit_file_path(home: &str, system_id: &str) -> (path: String)
    ensures
        path@ == unit_file_in(home@, system_id@),
{
    units_dir(home).concat("/").concat(system_id).concat(".service")
}

} // verus!
