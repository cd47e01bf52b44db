use lib::proxy_launch::{
    daemon_args, health_url, startup_failure_message, no_proxy_value, proxy_endpoint, startup_step, StartupStep,
    READINESS_ATTEMPTS,
};

#[test]
fn daemon_args_without_overrides() {
    assert_eq!(daemon_args(None, None, None), vec!["proxy", "start"]);
}

#[test]
fn daemon_args_with_everything() {
    let args = daemon_args(
        Some("/etc/claudex.toml".to_string()),
        Some(13456),
        Some("0.0.0.0".to_string()),
    );
    assert_eq!(
        args,
        vec!["--config", "/etc/claudex.toml", "proxy", "start", "--port", "13456", "--host", "0.0.0.0"]
    );
}

#[test]
fn daemon_args_with_port_only() {
    assert_eq!(daemon_args(None, Some(8080), None), vec!["proxy", "start", "--port", "8080"]);
}

#[test]
fn endpoint_prefers_overrides() {
    let configured = "127.0.0.1".to_string();
    assert_eq!(proxy_endpoint(None, &None, 13456, &configured), (13456, "127.0.0.1".to_string()));
    assert_eq!(
        proxy_endpoint(Some(9000), &Some("localhost".to_string()), 13456, &configured),
        (9000, "localhost".to_string())
    );
}

#[test]
fn health_url_is_built_from_host_and_port() {
    assert_eq!(health_url("127.0.0.1", 13456), "http://127.0.0.1:13456/health");
    assert_eq!(health_url("localhost", 0), "http://localhost:0/health");
}

#[test]
fn no_proxy_prefers_upper_then_lower_then_loopback() {
    assert_eq!(no_proxy_value(Some("a".to_string()), Some("b".to_string())), "a");
    assert_eq!(no_proxy_value(None, Some("b".to_string())), "b");
    assert_eq!(no_proxy_value(None, None), "127.0.0.1,localhost,::1");
}

#[test]
fn startup_polls_twenty_times() {
    assert_eq!(READINESS_ATTEMPTS, 20);
    for attempt in 1..20 {
        assert_eq!(startup_step(attempt, false), StartupStep::Retry);
        assert_eq!(startup_step(attempt, true), StartupStep::Ready);
    }
    assert_eq!(startup_step(20, false), StartupStep::GiveUp);
    assert_eq!(startup_step(20, true), StartupStep::Ready);
}

#[test]
fn give_up_text() {
    assert_eq!(startup_failure_message(), "proxy failed to start within 2 seconds");
}
