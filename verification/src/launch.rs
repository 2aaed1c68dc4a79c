//! Running a client program that finds the proxy through its environment.
use crate::config::Config;
use crate::listening;
use crate::text;
use vstd::prelude::*;
use vstd::string::*;

verus! {

/// A program to run: its name, its arguments, and the environment variables that it is given.
#[derive(Debug, PartialEq)]
pub struct Launch {
    pub program: String,
    pub arguments: Vec<String>,
    pub environment: Vec<(String, String)>,
}

/// Why no program is run.
#[derive(Debug, PartialEq)]
pub enum LaunchError {
    /// The command is empty.
    NoCommand,
}

impl LaunchError {
    /// The sentence that tells why no program is run.
    pub fn message(&self) -> (message: String)
        ensures
            message@ == "a command is required after `run --`"@,
    {
        "a command is required after `run --`".to_owned()
    }
}

/// The names and values of environment variables.
pub open spec fn variables(list: Seq<(String, String)>) -> Seq<(Seq<char>, Seq<char>)> {
    Seq::new(list.len(), |i: int| (list[i].0@, list[i].1@))
}

/// The URL below which a client finds the proxy.
pub open spec fn base_url(host: Seq<char>, port: u16) -> Seq<char> {
    "http://"@ + listening::address_of(host, port) + "/v1"@
}

/// The environment variables that lead a client to the proxy. The key is a placeholder: the
/// providers' keys stay with the proxy.
pub open spec fn client_environment(url: Seq<char>) -> Seq<(Seq<char>, Seq<char>)> {
    seq![
        ("OPENAI_BASE_URL"@, url),
        ("OPENAI_API_BASE"@, url),
        ("TERMUX_AGENT_ROUTER_BASE_URL"@, url),
        ("OPENAI_API_KEY"@, "termux-agent-router"@),
    ]
}

/// Prepares a client program: the first word of the command is the program, the others are its
/// arguments as they stand, and no shell reads them.
pub fn run_client(
    config: &Config,
    host: Option<String>,
    port: Option<u16>,
    command: Vec<String>,
) -> (launch: Result<Launch, LaunchError>)
    ensures
        match launch {
            Ok(launch) => {
                &&& command@.len() > 0
                &&& launch.program@ == command@[0]@
                &&& text::texts(launch.arguments@) == text::texts(command@).drop_first()
                &&& variables(launch.environment@) == client_environment(
                    base_url(
                        listening::chosen_host(config@, text::optional_string(host)),
                        listening::chosen_port(config@, port),
                    ),
                )
                &&& launch.arguments@.len() == command@.len() - 1
                &&& forall|i: int|
                    0 <= i < launch.arguments@.len() ==> (#[trigger] launch.arguments@[i])@
                        == command@[i + 1]@
                &&& launch.environment@.len() == 4
                &&& launch.environment@[0].0@ == "OPENAI_BASE_URL"@
                &&& launch.environment@[1].0@ == "OPENAI_API_BASE"@
                &&& launch.environment@[2].0@ == "TERMUX_AGENT_ROUTER_BASE_URL"@
                &&& launch.environment@[3].0@ == "OPENAI_API_KEY"@
                &&& launch.environment@[3].1@ == "termux-agent-router"@
                &&& forall|i: int|
                    0 <= i < 3 ==> (#[trigger] launch.environment@[i]).1@ == "http://"@ + (
                    match host {
                        Some(host) => host@,
                        None => config.listen_host@,
                    }) + ":"@ + text::decimal_digits(
                        match port {
                            Some(port) => port as nat,
                            None => config.listen_port as nat,
                        },
                    ) + "/v1"@
            },
            Err(error) => command@.len() == 0 && error == LaunchError::NoCommand,
        },
{
    let host = match host {
        Some(host) => host,
        None => config.listen_host.clone(),
    };
    let port = match port {
        Some(port) => port,
        None => config.listen_port,
    };
    if command.is_empty() {
        return Err(LaunchError::NoCommand);
    }
    let mut arguments: Vec<String> = Vec::new();
    for index in 1..command.len()
        invariant
            command@.len() > 0,
            arguments@.len() == index - 1,
            forall|i: int| 0 <= i < arguments@.len() ==> (#[trigger] arguments@[i])@ == command@[i + 1]@,
    {
        arguments.push(command[index].clone());
    }
    let mut url = text::together("http://", listening::address(host.as_str(), port).as_str());
    url.append("/v1");
    assert(url@ =~= "http://"@ + host@ + ":"@ + text::decimal_digits(port as nat) + "/v1"@);
    let environment: Vec<(String, String)> = vec![
        ("OPENAI_BASE_URL".to_owned(), url.clone()),
        ("OPENAI_API_BASE".to_owned(), url.clone()),
        ("TERMUX_AGENT_ROUTER_BASE_URL".to_owned(), url.clone()),
        ("OPENAI_API_KEY".to_owned(), "termux-agent-router".to_owned()),
    ];
    proof {
        assert(text::texts(arguments@) =~= text::texts(command@).drop_first());
        assert(variables(environment@) =~= client_environment(url@));
    }
    Ok(Launch { program: command[0].clone(), arguments, environment })
}

/// The code to exit with after a program has ended: its own, or 1 where a signal ended it.
pub fn exit_code(code: Option<i32>) -> (exit: i32)
    ensures
        exit == match code {
            Some(code) => code,
            None => 1,
        },
{
    match code {
        Some(code) => code,
        None => 1,
    }
}

} // verus!
