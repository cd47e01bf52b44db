//! Starting the proxy as a background process: the command line it gets, the
//! address it is polled on, the loopback exemption handed to it, and when
//! the wait for it to come up ends.
use vstd::prelude::*;
use crate::text::{decimal, decimal_text};

verus! {

/// How many times the health endpoint is polled before giving up.
pub const READINESS_ATTEMPTS: u32 = 20;

/// Milliseconds to wait before each poll of the health endpoint.
pub const READINESS_POLL_MS: u64 = 100;

/// The proxy exemption used when the environment sets none: the loopback names.
pub open spec fn default_no_proxy() -> Seq<char> {
    "127.0.0.1,localhost,::1"@
}

/// The arguments of the background proxy process: the configuration file
/// when one was given, the `proxy start` command, and the port and host
/// only where they were given on the command line.
pub open spec fn daemon_args_spec(
    config_path: Option<Seq<char>>,
    port_override: Option<u16>,
    host_override: Option<Seq<char>>,
) -> Seq<Seq<char>> {
    let config = match config_path {
        Some(path) => seq!["--config"@, path],
        None => Seq::empty(),
    };
    let port = match port_override {
        Some(p) => seq!["--port"@, decimal(p as nat)],
        None => Seq::empty(),
    };
    let host = match host_override {
        Some(h) => seq!["--host"@, h],
        None => Seq::empty(),
    };
    config + seq!["proxy"@, "start"@] + port + host
}

pub open spec fn option_view(o: Option<String>) -> Option<Seq<char>> {
    match o {
        Some(s) => Some(s@),
        None => None,
    }
}

/// What follows a poll of the health endpoint.
#[derive(Debug, Clone, Copy, PartialEq, Eq, Structural)]
pub enum StartupStep {
    /// The proxy answered: it is up.
    Ready,
    /// Wait and poll again.
    Retry,
    /// The proxy did not come up in time.
    GiveUp,
}

/// The step after poll number `attempt` (counting from 1) answered `healthy`.
pub open spec fn startup_step_spec(attempt: u32, healthy: bool) -> StartupStep {
    if healthy {
        StartupStep::Ready
    } else if attempt < READINESS_ATTEMPTS {
        StartupStep::Retry
    } else {
        StartupStep::GiveUp
    }
}

fn push_text(args: &mut Vec<String>, lit: &str)
    ensures
        final(args)@.map_values(|a: String| a@) == old(args)@.map_values(|a: String| a@).push(
            lit@,
        ),
{
    args.push(lit.to_owned());
    assert(final(args)@.map_values(|a: String| a@) =~= old(args)@.map_values(|a: String| a@).push(
        lit@,
    ));
}

fn push_string(args: &mut Vec<String>, s: String)
    ensures
        final(args)@.map_values(|a: String| a@) == old(args)@.map_values(|a: String| a@).push(
            s@,
        ),
{
    args.push(s);
    assert(final(args)@.map_values(|a: String| a@) =~= old(args)@.map_values(|a: String| a@).push(
        s@,
    ));
}

/// The arguments with which the proxy is started in the background.
pub fn daemon_args(
    config_path: Option<String>,
    port_override: Option<u16>,
    host_override: Option<String>,
) -> (args: Vec<String>)
    ensures
        args@.map_values(|a: String| a@) == daemon_args_spec(
            option_view(config_path),
            port_override,
            option_view(host_override),
        ),
{
    let ghost spec_config = option_view(config_path);
    let ghost spec_host = option_view(host_override);
    let mut args: Vec<String> = Vec::new();
    assert(args@.map_values(|a: String| a@) =~= Seq::<Seq<char>>::empty());
    match config_path {
        Some(path) => {
            push_text(&mut args, "--config");
            push_string(&mut args, path);
        },
        None => {},
    }
    let ghost after_config = args@.map_values(|a: String| a@);
    push_text(&mut args, "proxy");
    push_text(&mut args, "start");
    let ghost after_command = args@.map_values(|a: String| a@);
    match port_override {
        Some(port) => {
            push_text(&mut args, "--port");
            push_string(&mut args, decimal_text(port as u64));
        },
        None => {},
    }
    let ghost after_port = args@.map_values(|a: String| a@);
    match host_override {
        Some(host) => {
            push_text(&mut args, "--host");
            push_string(&mut args, host);
        },
        None => {},
    }
    proof {
        let config = match spec_config {
            Some(path) => seq!["--config"@, path],
            None => Seq::empty(),
        };
        let port = match port_override {
            Some(p) => seq!["--port"@, decimal(p as nat)],
            None => Seq::empty(),
        };
        let host = match spec_host {
            Some(h) => seq!["--host"@, h],
            None => Seq::empty(),
        };
        assert(after_config =~= config);
        assert(after_command =~= config + seq!["proxy"@, "start"@]);
        assert(after_port =~= config + seq!["proxy"@, "start"@] + port);
        assert(args@.map_values(|a: String| a@) =~= config + seq!["proxy"@, "start"@] + port
            + host);
    }
    args
}

/// Each override stands in the arguments exactly when it was given, each
/// independently of the others: the configuration file first, then
/// `proxy start`, then the port, and the host last.
pub proof fn law_daemon_args_carry_each_override(
    config_path: Option<Seq<char>>,
    port_override: Option<u16>,
    host_override: Option<Seq<char>>,
)
    ensures
        ({
            let args = daemon_args_spec(config_path, port_override, host_override);
            let c: int = if config_path is Some { 2 } else { 0 };
            let p: int = if port_override is Some { 2 } else { 0 };
            let h: int = if host_override is Some { 2 } else { 0 };
            &&& args.len() == c + 2 + p + h
            &&& config_path matches Some(path) ==> args[0] == "--config"@ && args[1] == path
            &&& args[c] == "proxy"@
            &&& args[c + 1] == "start"@
            &&& port_override matches Some(n) ==> args[c + 2] == "--port"@ && args[c + 3]
                == decimal(n as nat)
            &&& host_override matches Some(host) ==> args[args.len() - 2] == "--host"@
                && args[args.len() - 1] == host
        }),
{
}

/// The port and host the proxy will listen on: the ones given on the command
/// line, or else the configured ones.
pub fn proxy_endpoint(
    port_override: Option<u16>,
    host_override: &Option<String>,
    configured_port: u16,
    configured_host: &String,
) -> (endpoint: (u16, String))
    ensures
        endpoint.0 == match port_override {
            Some(p) => p,
            None => configured_port,
        },
        endpoint.1@ == match host_override {
            Some(h) => h@,
            None => configured_host@,
        },
{
    let port = match port_override {
        Some(p) => p,
        None => configured_port,
    };
    let host = match host_override {
        Some(h) => h.clone(),
        None => configured_host.clone(),
    };
    (port, host)
}

/// The address of the proxy's health endpoint.
pub fn health_url(host: &str, port: u16) -> (url: String)
    ensures
        url@ == "http://"@ + host@ + ":"@ + decimal(port as nat) + "/health"@,
{
    let mut url = "http://".to_owned();
    url.append(host);
    url.append(":");
    let port_text = decimal_text(port as u64);
    url.append(port_text.as_str());
    url.append("/health");
    url
}

/// The proxy exemption to hand to the proxy process: `NO_PROXY` if set,
/// else `no_proxy`, else the loopback names.
pub fn no_proxy_value(upper: Option<String>, lower: Option<String>) -> (value: String)
    ensures
        value@ == match upper {
            Some(u) => u@,
            None => match lower {
                Some(l) => l@,
                None => default_no_proxy(),
            },
        },
{
    match upper {
        Some(u) => u,
        None => match lower {
            Some(l) => l,
            None => "127.0.0.1,localhost,::1".to_owned(),
        },
    }
}

/// What to do after poll number `attempt` (counting from 1) of the health
/// endpoint answered `healthy`.
pub fn startup_step(attempt: u32, healthy: bool) -> (step: StartupStep)
    ensures
        step == startup_step_spec(attempt, healthy),
{
    if healthy {
        StartupStep::Ready
    } else if attempt < READINESS_ATTEMPTS {
        StartupStep::Retry
    } else {
        StartupStep::GiveUp
    }
}

/// The error reported when the proxy did not come up in time.
pub fn startup_failure_message() -> (msg: String)
    ensures
        msg@ == "proxy failed to start within 2 seconds"@,
{
    "proxy failed to start within 2 seconds".to_owned()
}

/// A proxy that never answers is given up on at the last poll and not before,
/// after two seconds of polling; one that answers is taken as ready at once.
pub proof fn law_startup_gives_up_after_all_polls(attempt: u32)
    requires
        1 <= attempt,
    ensures
        startup_step_spec(attempt, true) == StartupStep::Ready,
        startup_step_spec(attempt, false) == StartupStep::GiveUp <==> attempt >= READINESS_ATTEMPTS,
        READINESS_ATTEMPTS * READINESS_POLL_MS == 2000,
{
}

} // verus!
