//! The requests between the nodes, as far as they are decided rather than
//! sent: where a command goes, what a slave answers, and what a master's
//! reply to an alert means.

use vstd::prelude::*;
use crate::auth::{authenticate, authenticate_spec, AuthError};
use crate::models::{Command, HealthResponse, ListResponse, WhoResponse};
use crate::text::{concat2, copy_str, trim, trim_spec};

verus! {

/// The URL at which a slave at `slave_addr` takes commands.
pub open spec fn command_url_spec(slave_addr: Seq<char>) -> Seq<char> {
    "http://"@ + slave_addr + "/command"@
}

/// The URL at which a slave at `slave_addr` takes commands.
pub fn command_url(slave_addr: &str) -> (url: String)
    ensures
        url@ == command_url_spec(slave_addr@),
{
    let mut url = copy_str("http://");
    url.append(slave_addr);
    url.append("/command");
    url
}

/// The master did not accept an alert; it holds the HTTP status it answered.
#[derive(Clone, Copy, Debug, PartialEq, Eq, Structural)]
pub struct DeliveryError {
    pub status: u16,
}

/// What the HTTP status of the master's answer to an alert means: any
/// status in 200..=299 is success.
pub fn alert_delivery_result(status: u16) -> (res: Result<(), DeliveryError>)
    ensures
        res is Ok <==> 200 <= status < 300,
        res matches Err(e) ==> e.status == status,
{
    if 200 <= status && status < 300 {
        Ok(())
    } else {
        Err(DeliveryError { status })
    }
}

/// A slave's answer to a health command: it is healthy.
pub fn health_response(alias: String) -> (r: HealthResponse)
    ensures
        r.alias@ == alias@,
        r.status@ == "Healthy"@,
{
    HealthResponse { alias, status: copy_str("Healthy") }
}

/// A slave's answer to a `who` command.
pub fn who_response(alias: String, who_output: String) -> (r: WhoResponse)
    ensures
        r.alias@ == alias@,
        r.who_output@ == who_output@,
{
    WhoResponse { alias, who_output }
}

/// A slave's answer to a list command.
pub fn list_response(alias: String, hostname: String, ip: String, uptime: String) -> (r: ListResponse)
    ensures
        r.alias@ == alias@,
        r.hostname@ == hostname@,
        r.ip@ == ip@,
        r.uptime@ == uptime@,
{
    ListResponse { alias, hostname, ip, uptime }
}

/// The text a node reports for the output of a local program: the output
/// (trimmed where `trim_output`), or `error_prefix` and the error's text.
pub open spec fn output_text_spec(
    result: Result<Seq<char>, Seq<char>>,
    error_prefix: Seq<char>,
    trim_output: bool,
) -> Seq<char> {
    match result {
        Ok(out) => if trim_output {
            trim_spec(out)
        } else {
            out
        },
        Err(e) => error_prefix + e,
    }
}

/// The text a node reports for the output of a local program (`who`,
/// `uptime -p`), or for the error that running it gave.
pub fn output_text(result: Result<String, String>, error_prefix: &str, trim_output: bool) -> (s: String)
    ensures
        s@ == output_text_spec(
            match result {
                Ok(o) => Ok(o@),
                Err(e) => Err(e@),
            },
            error_prefix@,
            trim_output,
        ),
{
    match result {
        Ok(out) => if trim_output {
            trim(out.as_str())
        } else {
            out
        },
        Err(e) => concat2(error_prefix, e.as_str()),
    }
}

/// What a slave must find out on its own machine to answer a command.
#[derive(Clone, Copy, Debug, PartialEq, Eq, Structural)]
pub enum LocalProbe {
    /// Nothing: a health answer needs no facts.
    Nothing,
    /// The output of `who`.
    WhoOutput,
    /// The output of `uptime -p`, the host name and the node's address.
    NodeFacts,
}

/// What a slave must find out to answer `command`.
pub fn probe_for(command: Command) -> (p: LocalProbe)
    ensures
        p == match command {
            Command::Health => LocalProbe::Nothing,
            Command::Who => LocalProbe::WhoOutput,
            Command::List => LocalProbe::NodeFacts,
        },
{
    match command {
        Command::Health => LocalProbe::Nothing,
        Command::Who => LocalProbe::WhoOutput,
        Command::List => LocalProbe::NodeFacts,
    }
}

/// What a slave found out on its own machine: the output of the program the
/// probe runs (or the error running it gave), its host name and its address.
/// A field the probe does not need is not read.
pub struct LocalFacts {
    pub program_output: Result<String, String>,
    pub hostname: String,
    pub ip: String,
}

/// A slave's answer to a command.
pub enum CommandReply {
    Health(HealthResponse),
    Who(WhoResponse),
    List(ListResponse),
}

pub open spec fn output_view(r: Result<String, String>) -> Result<Seq<char>, Seq<char>> {
    match r {
        Ok(o) => Ok(o@),
        Err(e) => Err(e@),
    }
}

/// A slave's answer to `command`, under its alias: healthy; the output of
/// `who` (or `Error: ` and the error); or its host name, address and the
/// trimmed output of `uptime -p` (or `Error: ` and the error).
pub fn reply_to_command(command: Command, alias: String, facts: LocalFacts) -> (r: CommandReply)
    ensures
        match command {
            Command::Health => r matches CommandReply::Health(h) && h.alias@ == alias@ && h.status@
                == "Healthy"@,
            Command::Who => r matches CommandReply::Who(w) && w.alias@ == alias@ && w.who_output@
                == output_text_spec(output_view(facts.program_output), "Error: "@, false),
            Command::List => r matches CommandReply::List(l) && l.alias@ == alias@ && l.hostname@
                == facts.hostname@ && l.ip@ == facts.ip@ && l.uptime@ == output_text_spec(
                output_view(facts.program_output),
                "Error: "@,
                true,
            ),
        },
{
    match command {
        Command::Health => CommandReply::Health(health_response(alias)),
        Command::Who => {
            let out = output_text(facts.program_output, "Error: ", false);
            CommandReply::Who(who_response(alias, out))
        },
        Command::List => {
            let uptime = output_text(facts.program_output, "Error: ", true);
            CommandReply::List(list_response(alias, facts.hostname, facts.ip, uptime))
        },
    }
}

/// How a node takes a command request: it authenticates it first, and only
/// an accepted request gets the probe its command needs; a refused one runs
/// nothing.
pub fn admit_command(auth_header: Option<&str>, expected_hash: &[u8], command: Command) -> (res: Result<
    LocalProbe,
    AuthError,
>)
    ensures
        match authenticate_spec(
            match auth_header {
                Some(h) => Some(h@),
                None => None,
            },
            expected_hash@,
        ) {
            Ok(_) => res matches Ok(p) && p == match command {
                Command::Health => LocalProbe::Nothing,
                Command::Who => LocalProbe::WhoOutput,
                Command::List => LocalProbe::NodeFacts,
            },
            Err(e) => res == Err::<LocalProbe, AuthError>(e),
        },
{
    match authenticate(auth_header, expected_hash) {
        Ok(()) => Ok(probe_for(command)),
        Err(e) => Err(e),
    }
}

} // verus!
