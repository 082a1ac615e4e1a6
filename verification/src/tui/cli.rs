//! The command line of the front end.

use vstd::prelude::*;
use vstd::string::*;

use crate::text;
use crate::text::Text;

verus! {

/// What the front end is asked to do.
#[derive(Debug, Clone, Copy, PartialEq, Eq, Structural)]
pub enum TuiCommand {
    Help,
    Version,
    Run,
}

/// An argument, which is none where it is not valid UTF-8.
pub open spec fn command_of(args: Seq<Option<Text>>) -> Result<TuiCommand, Text> {
    if args.len() == 0 {
        Ok(TuiCommand::Run)
    } else {
        match args[0] {
            None => Err("cue-tui command must be valid UTF-8"@),
            Some(a) => if a == "-h"@ || a == "--help"@ || a == "help"@ {
                if args.len() > 1 {
                    Err("`cue-tui help` does not accept extra arguments"@)
                } else {
                    Ok(TuiCommand::Help)
                }
            } else if a == "-V"@ || a == "--version"@ || a == "version"@ {
                if args.len() > 1 {
                    Err("`cue-tui version` does not accept extra arguments"@)
                } else {
                    Ok(TuiCommand::Version)
                }
            } else {
                Err("unknown cue-tui command `"@ + a + "`; supported: help, version"@)
            },
        }
    }
}

pub open spec fn opt_texts(args: Seq<Option<String>>) -> Seq<Option<Text>> {
    args.map_values(|a: Option<String>| text::opt_text(a))
}

/// Reads the arguments; one that is not valid UTF-8 is given as none.
pub fn parse_command(args: &Vec<Option<String>>) -> (r: Result<TuiCommand, String>)
    ensures
        match r {
            Ok(c) => command_of(opt_texts(args@)) == Ok::<TuiCommand, Text>(c),
            Err(e) => command_of(opt_texts(args@)) == Err::<TuiCommand, Text>(e@),
        },
{
    if args.len() == 0 {
        return Ok(TuiCommand::Run);
    }
    assert(opt_texts(args@)[0] == text::opt_text(args@[0]));
    match &args[0] {
        None => Err("cue-tui command must be valid UTF-8".to_owned()),
        Some(arg) => {
            let a = arg.as_str();
            if text::str_eq(a, "-h") || text::str_eq(a, "--help") || text::str_eq(a, "help") {
                if args.len() > 1 {
                    return Err("`cue-tui help` does not accept extra arguments".to_owned());
                }
                Ok(TuiCommand::Help)
            } else if text::str_eq(a, "-V") || text::str_eq(a, "--version") || text::str_eq(a, "version") {
                if args.len() > 1 {
                    return Err("`cue-tui version` does not accept extra arguments".to_owned());
                }
                Ok(TuiCommand::Version)
            } else {
                Err(text::concat3("unknown cue-tui command `", a, "`; supported: help, version"))
            }
        },
    }
}

// ── Transports ──

/// How the daemon is reached.
#[derive(Debug, PartialEq, Eq)]
#[allow(inconsistent_fields)]
pub enum ResolvedTransport {
    Unix { profile_name: String, socket_path: String },
    Ssh {
        profile_name: String,
        destination: String,
        gateway_command: String,
        start_command: String,
    },
}

pub open spec fn install_hint(profile_name: Text) -> Text {
    "client profile `"@ + profile_name
        + "` uses `transport = \"ssh\"`, but OpenSSH `ssh` was not found in PATH. cue-shell phase 1 uses the system OpenSSH client. Install it (macOS: `brew install openssh`; Debian/Ubuntu: `sudo apt install openssh-client`; Fedora: `sudo dnf install openssh-clients`) or switch back to a unix transport profile."@
}

pub fn ssh_install_hint(profile_name: &str) -> (r: String)
    ensures
        r@ == install_hint(profile_name@),
{
    text::concat3(
        "client profile `",
        profile_name,
        "` uses `transport = \"ssh\"`, but OpenSSH `ssh` was not found in PATH. cue-shell phase 1 uses the system OpenSSH client. Install it (macOS: `brew install openssh`; Debian/Ubuntu: `sudo apt install openssh-client`; Fedora: `sudo dnf install openssh-clients`) or switch back to a unix transport profile.",
    )
}

/// Why a transport cannot be used, if it cannot.
pub open spec fn transport_error(transport: ResolvedTransport, ssh_found: bool) -> Option<Text> {
    match transport {
        ResolvedTransport::Unix { profile_name, socket_path } => None,
        ResolvedTransport::Ssh { profile_name, destination, gateway_command, start_command } => {
            if !ssh_found {
                Some(install_hint(profile_name@))
            } else if text::trim(destination@).len() == 0 {
                Some("client profile `"@ + profile_name@ + "` has an empty SSH destination"@)
            } else if text::trim(gateway_command@).len() == 0 {
                Some("client profile `"@ + profile_name@ + "` has an empty `gateway_command`"@)
            } else if text::trim(start_command@).len() == 0 {
                Some("client profile `"@ + profile_name@ + "` has an empty `start_command`"@)
            } else {
                None
            }
        },
    }
}

/// Checks a transport, given whether `ssh` was found.
pub fn validate_transport_with_lookup(transport: &ResolvedTransport, ssh_found: bool) -> (r: Result<
    (),
    String,
>)
    ensures
        match r {
            Ok(()) => transport_error(*transport, ssh_found) is None,
            Err(e) => transport_error(*transport, ssh_found) == Some(e@),
        },
{
    match transport {
        ResolvedTransport::Unix { .. } => Ok(()),
        ResolvedTransport::Ssh { profile_name, destination, gateway_command, start_command } => {
            let name = profile_name.as_str();
            if !ssh_found {
                return Err(ssh_install_hint(name));
            }
            if text::str_trim(destination.as_str()).len() == 0 {
                return Err(text::concat3("client profile `", name, "` has an empty SSH destination"));
            }
            if text::str_trim(gateway_command.as_str()).len() == 0 {
                return Err(text::concat3("client profile `", name, "` has an empty `gateway_command`"));
            }
            if text::str_trim(start_command.as_str()).len() == 0 {
                return Err(text::concat3("client profile `", name, "` has an empty `start_command`"));
            }
            Ok(())
        },
    }
}

} // verus!
