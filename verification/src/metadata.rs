//! Build metadata of the project, as plain constants for the CLI to print.

use vstd::prelude::*;

verus! {

/// Logging verbosity levels, ordered from silent to most verbose.
#[derive(Debug, Copy, Clone, PartialEq, Eq, Structural)]
pub enum LogLevel {
    Off,
    Error,
    Warn,
    Info,
    Debug,
    Trace,
}

/// The project's default log level.
pub fn default_log_level() -> (r: LogLevel)
    ensures
        r == LogLevel::Info,
{
    LogLevel::Info
}

/// The project's main package name.
pub fn package_name() -> (r: &'static str)
    ensures
        r@ == "prolice"@,
{
    "prolice"
}

/// The project's full version.
pub fn full_version() -> (r: &'static str)
    ensures
        r@ == "0.1.0"@,
{
    "0.1.0"
}

/// The project's colon-separated list of authors.
pub fn authors() -> (r: &'static str)
    ensures
        r@ == "prolice developers"@,
{
    "prolice developers"
}

/// The project's description.
pub fn description() -> (r: &'static str)
    ensures
        r@ == "Quality metrics for pull requests and repositories"@,
{
    "Quality metrics for pull requests and repositories"
}

/// The application's ASCII-art logo.
pub fn get_logo() -> (r: &'static str)
    ensures
        r@.len() > 0,
{
    let logo =
        "\n        ooooooooo.   ooooooooo.             oooo   o8o\n        `888   `Y88. `888   `Y88.           `888   `\"'\n         888   .d88'  888   .d88'  .ooooo.   888  oooo   .ooooo.   .ooooo.\n         888ooo88P'   888ooo88P'  d88' `88b  888  `888  d88' `\"Y8 d88' `88b\n         888          888`88b.    888   888  888   888  888       888ooo888\n         888          888  `88b.  888   888  888   888  888   .o8 888    .o\n        o888o        o888o  o888o `Y8bod8P' o888o o888o `Y8bod8P' `Y8bod8P'\n        ------------ What you gonna do when they come for you -------------\n    ";
    proof {
        reveal_strlit(
            "\n        ooooooooo.   ooooooooo.             oooo   o8o\n        `888   `Y88. `888   `Y88.           `888   `\"'\n         888   .d88'  888   .d88'  .ooooo.   888  oooo   .ooooo.   .ooooo.\n         888ooo88P'   888ooo88P'  d88' `88b  888  `888  d88' `\"Y8 d88' `88b\n         888          888`88b.    888   888  888   888  888       888ooo888\n         888          888  `88b.  888   888  888   888  888   .o8 888    .o\n        o888o        o888o  o888o `Y8bod8P' o888o o888o `Y8bod8P' `Y8bod8P'\n        ------------ What you gonna do when they come for you -------------\n    ",
        );
    }
    logo
}

} // verus!
