use engcheck::{
    args_for, binary_file_name, binary_path, body_complete, chain_is_running, env_for,
    exit_reply, global_config_text, http_request, join_with, json_field, json_string, log_path,
    normalise_region, port_text, port_wait_step, socks_connect_request, step_timeout_secs,
    tun_binary, tunnel_args, Engine, ExitAction, ExitCheck, ExitError, ExitStage, PortWait,
    Stage, StartAction, StartErrorKind, Step, Supervisor, AETHER_PORT, GLOBAL_PORT,
    PROWL_PORT, Proc, TUN_API_PORT,
};

const ENGINES: [Engine; 3] = [Engine::Aether, Engine::Global, Engine::Prowl];

fn strings(v: &[&str]) -> Vec<String> {
    v.iter().map(|s| s.to_string()).collect()
}

#[test]
fn ports_are_written_in_decimal() {
    assert_eq!(port_text(0), "0");
    assert_eq!(port_text(7), "7");
    assert_eq!(port_text(10), "10");
    assert_eq!(port_text(1819), "1819");
    assert_eq!(port_text(65535), "65535");
}

#[test]
fn json_string_escapes_quotes_backslashes_and_controls() {
    assert_eq!(json_string(""), "\"\"");
    assert_eq!(json_string("a\"b\\c"), "\"a\\\"b\\\\c\"");
    assert_eq!(json_string("l1\nl2\r\tend"), "\"l1\\nl2\\r\\tend\"");
    assert_eq!(json_string("\u{1}"), "\"\\u0001\"");
    assert_eq!(json_string("\u{1f}x"), "\"\\u001fx\"");
    assert_eq!(json_string("é/ü"), "\"é/ü\"");
}

#[test]
fn json_field_takes_the_first_occurrence_and_needs_a_quoted_value() {
    assert_eq!(json_field("{\"a\" :\t \"x\",\"a\":\"y\"}", "a").as_deref(), Some("x"));
    assert_eq!(json_field("{\"a\" \"x\"}", "a"), None);
    assert_eq!(json_field("{\"a\": 5}", "a"), None);
    assert_eq!(json_field("{\"a\": \"unterminated", "a"), None);
    assert_eq!(json_field("{\"a\": \"\"}", "a").as_deref(), Some(""));
    assert_eq!(json_field("{\"ab\": \"x\"}", "a"), None);
}

#[test]
fn region_normalisation_is_idempotent_and_trims_unicode_space() {
    for asked in ["nl", " De ", "\u{3000}fr\u{a0}", "USA", "u1", "", "ñl", "\tgb\n"] {
        let once = normalise_region(asked);
        assert_eq!(normalise_region(&once), once, "{asked:?}");
        assert!(once.is_empty() || (once.len() == 2 && once.chars().all(|c| c.is_ascii_uppercase())));
    }
    assert_eq!(normalise_region("\u{3000}fr\u{a0}"), "FR");
    assert_eq!(normalise_region("\tgb\n"), "GB");
    assert_eq!(normalise_region("ñl"), "");
}

#[test]
fn engine_names_parse_back_in_any_case() {
    for e in ENGINES {
        assert_eq!(Engine::parse(e.label()), Some(e));
        assert_eq!(Engine::parse(e.binary_stem()), Some(e));
        assert_eq!(Engine::parse(&e.label().to_uppercase()), Some(e));
    }
    assert_eq!(Engine::Aether.label(), "Aether");
    assert_eq!(Engine::Prowl.binary_stem(), "prowl");
    assert_eq!(Engine::parse("AeThEr"), Some(Engine::Aether));
    assert_eq!(Engine::parse(" aether"), None);
}

#[test]
fn every_plan_is_a_chain_serving_on_its_last_port() {
    for e in ENGINES {
        let plan = e.plan();
        assert!(!plan.steps.is_empty());
        assert_eq!(plan.steps[0].upstream, None);
        for i in 1..plan.steps.len() {
            assert_eq!(plan.steps[i].upstream, Some(plan.steps[i - 1].port));
        }
        let last = plan.steps[plan.steps.len() - 1];
        assert_eq!(last.engine, e);
        assert_eq!(plan.socks, last.port);
    }
    assert_eq!(Engine::Prowl.plan().socks, PROWL_PORT);
    assert_eq!(step_timeout_secs(Engine::Prowl), 120);
}

#[test]
fn executables_logs_and_the_tunnel_have_their_names() {
    assert_eq!(binary_file_name(Engine::Global, true), "global.exe");
    assert_eq!(binary_file_name(Engine::Global, false), "global");
    let p = binary_path("/res", Engine::Aether);
    assert!(p.starts_with("/res"), "{p}");
    assert!(p.ends_with("aether") || p.ends_with("aether.exe"), "{p}");
    assert!(p.len() > "/res".len() + "aether".len(), "{p}");
    let log = log_path("data", Engine::Prowl);
    assert!(log.starts_with("data"), "{log}");
    assert!(log.contains("logs"), "{log}");
    assert!(log.ends_with("prowl.log"), "{log}");
    let t = tun_binary("/res");
    assert!(t.ends_with("sing-box") || t.ends_with("sing-box.exe"), "{t}");
}

#[test]
fn each_engine_logs_to_a_file_of_its_own() {
    let paths: Vec<String> =
        [Engine::Aether, Engine::Global, Engine::Prowl].iter().map(|e| log_path("/d", *e)).collect();
    assert!(paths[0].ends_with("aether.log"), "{}", paths[0]);
    assert!(paths[1].ends_with("global.log"), "{}", paths[1]);
    assert!(paths[2].ends_with("prowl.log"), "{}", paths[2]);
    assert_ne!(paths[0], paths[1]);
    assert_ne!(paths[0], paths[2]);
    assert_ne!(paths[1], paths[2]);
}

#[test]
fn the_global_config_lists_its_fields_in_order() {
    let text = global_config_text("/s", 1820, Some(1819), " se ");
    assert!(text.starts_with("{\"PropagationChannelId\":\"FFFFFFFFFFFFFFFF\",\"SponsorId\":"), "{text}");
    assert!(text.contains(",\"DataRootDirectory\":\"/s\",\"MigrateDataStoreDirectory\":\"/s\","), "{text}");
    assert!(text.contains("\"LocalSocksProxyPort\":1820,\"DisableLocalHTTPProxy\":true,\"EmitDiagnosticNotices\":true,"), "{text}");
    assert!(text.ends_with(",\"UpstreamProxyURL\":\"socks5://127.0.0.1:1819\",\"EgressRegion\":\"SE\"}"), "{text}");
    let windows = global_config_text(r"C:\data", 1820, None, "");
    assert!(windows.contains(r#""DataRootDirectory":"C:\\data""#), "{windows}");
    assert!(windows.ends_with("\"EmitDiagnosticNotices\":true}"), "{windows}");
}

#[test]
fn join_with_puts_the_separator_between_parts_only() {
    assert_eq!(join_with(&strings(&[]), ","), "");
    assert_eq!(join_with(&strings(&["a"]), ","), "a");
    assert_eq!(join_with(&strings(&["a", "b", "c"]), ", "), "a, b, c");
}

#[test]
fn each_engine_gets_its_own_command_line() {
    let global = Step { engine: Engine::Global, port: GLOBAL_PORT, upstream: Some(AETHER_PORT) };
    assert_eq!(args_for(global, Some("/c.json")), strings(&["-config", "/c.json"]));
    assert_eq!(args_for(global, None), strings(&["-config", ""]));
    let prowl = Step { engine: Engine::Prowl, port: PROWL_PORT, upstream: None };
    assert_eq!(args_for(prowl, Some("/p.json")), strings(&["run", "-c", "/p.json"]));
    let aether = Step { engine: Engine::Aether, port: 2000, upstream: None };
    assert_eq!(args_for(aether, Some("/ignored")), strings(&["--bind", "127.0.0.1:2000"]));
    assert!(env_for(global, "data").is_empty());
    assert_eq!(env_for(aether, "data").len(), 9);
    assert_eq!(
        tunnel_args("/t/config.json", "/t"),
        strings(&["run", "-c", "/t/config.json", "-D", "/t"])
    );
}

#[test]
fn a_chain_runs_only_while_every_process_is_alive() {
    assert!(!chain_is_running(&[]));
    assert!(chain_is_running(&[true]));
    assert!(chain_is_running(&[true, true]));
    assert!(!chain_is_running(&[true, false]));
    assert_eq!(port_wait_step(false, true), PortWait::GiveUp);
    assert_eq!(port_wait_step(true, true), PortWait::Up);
    assert_eq!(port_wait_step(true, false), PortWait::Sleep);
}

#[test]
fn socks_requests_carry_the_name_and_the_port_big_endian() {
    let req = socks_connect_request("a.b", 0x1234).unwrap();
    assert_eq!(req, vec![5, 1, 0, 3, 3, b'a', b'.', b'b', 0x12, 0x34]);
    let long = "a".repeat(255);
    assert_eq!(socks_connect_request(&long, 80).unwrap().len(), 5 + 255 + 2);
    assert_eq!(socks_connect_request(&"a".repeat(256), 80), None);
    assert_eq!(socks_connect_request(&"é".repeat(128), 80), None);
    assert_eq!(
        http_request("/p", "h"),
        "GET /p HTTP/1.1\r\nHost: h\r\nUser-Agent: Panther\r\nConnection: close\r\n\r\n"
    );
}

#[test]
fn a_reply_is_complete_at_its_closing_brace_or_its_size_limit() {
    assert!(body_complete("HTTP/1.1 200 OK\r\n\r\n{\"query\":\"x\"}"));
    assert!(!body_complete("HTTP/1.1 200 OK\r\n\r\n{\"query\":"));
    assert!(!body_complete("{\"a\":1}\r\n"));
    assert!(body_complete(&"x".repeat(65537)));
    assert!(!body_complete(&"x".repeat(65536)));
    assert_eq!(
        exit_reply("\r\n\r\n{\"query\":\"1.2.3.4\"}"),
        Ok(("1.2.3.4".to_string(), String::new()))
    );
    assert_eq!(exit_reply("\r\n\r\n{\"countryCode\":\"DE\"}"), Err(ExitError::NoAddress));
    assert_eq!(ExitError::BadReply.message(), "socks: bad reply");
}

fn exchange(act: ExitAction) -> (Vec<u8>, usize) {
    match act {
        ExitAction::Exchange { send, receive } => (send, receive),
        _ => panic!("an exchange was expected"),
    }
}

fn failure(act: ExitAction) -> ExitError {
    match act {
        ExitAction::Fail(e) => e,
        _ => panic!("a failure was expected"),
    }
}

#[test]
fn the_exit_check_refuses_what_socks5_does_not_allow() {
    let (mut c, _) = ExitCheck::new("h", 80, "/");
    assert_eq!(failure(c.on_bytes(&[5, 255])), ExitError::NoAcceptableAuth);
    assert_eq!(c.stage(), ExitStage::Over);

    let (mut c, _) = ExitCheck::new(&"a".repeat(256), 80, "/");
    assert_eq!(failure(c.on_bytes(&[5, 0])), ExitError::HostTooLong);

    let (mut c, _) = ExitCheck::new("h", 80, "/");
    exchange(c.on_bytes(&[5, 0]));
    assert_eq!(failure(c.on_bytes(&[5, 1, 0, 1])), ExitError::ConnectRefused);

    let (mut c, _) = ExitCheck::new("h", 80, "/");
    exchange(c.on_bytes(&[5, 0]));
    assert_eq!(failure(c.on_bytes(&[5, 0, 0, 9])), ExitError::BadReply);
}

#[test]
fn the_exit_check_reads_named_and_ipv6_bound_addresses() {
    let (mut c, _) = ExitCheck::new("h", 80, "/");
    exchange(c.on_bytes(&[5, 0]));
    assert_eq!(exchange(c.on_bytes(&[5, 0, 0, 3])), (vec![], 1));
    assert_eq!(exchange(c.on_bytes(&[7])), (vec![], 9));
    assert_eq!(c.pending(), 9);

    let (mut c, _) = ExitCheck::new("h", 80, "/");
    exchange(c.on_bytes(&[5, 0]));
    assert_eq!(exchange(c.on_bytes(&[5, 0, 0, 4])), (vec![], 18));
}

fn streaming(host: &str) -> ExitCheck {
    let (mut c, _) = ExitCheck::new(host, 80, "/json");
    exchange(c.on_bytes(&[5, 0]));
    exchange(c.on_bytes(&[5, 0, 0, 1]));
    match c.on_bytes(&[0; 6]) {
        ExitAction::Stream { send } => assert_eq!(send, http_request("/json", host).into_bytes()),
        _ => panic!("the request was expected"),
    }
    c
}

#[test]
fn the_exit_check_reads_the_reply_in_pieces() {
    let mut c = streaming("h");
    match c.on_chunk(b"HTTP/1.1 200 OK\r\n\r\n{\"query\":\"9.8.7.6\",") {
        ExitAction::Stream { send } => assert!(send.is_empty()),
        _ => panic!("more of the reply was expected"),
    }
    match c.on_chunk(b"\"countryCode\":\"JP\"}") {
        ExitAction::Finish { ip, country } => {
            assert_eq!(ip, "9.8.7.6");
            assert_eq!(country, "JP");
        }
        _ => panic!("the reply was complete"),
    }
}

#[test]
fn the_exit_check_ends_on_a_closed_or_failed_read() {
    let mut c = streaming("h");
    assert_eq!(failure(c.on_read_error()), ExitError::ReadFailed);

    let mut c = streaming("h");
    c.on_chunk(b"\r\n\r\n{\"query\":\"1.1.1.1\"");
    match c.on_read_error() {
        ExitAction::Finish { ip, country } => {
            assert_eq!(ip, "1.1.1.1");
            assert_eq!(country, "");
        }
        _ => panic!("what was read answers"),
    }

    let mut c = streaming("h");
    c.on_chunk(b"\r\n\r\nnothing useful");
    assert_eq!(failure(c.on_end()), ExitError::NoAddress);
}

#[test]
fn invalid_utf8_in_the_reply_is_replaced_not_kept() {
    let mut c = streaming("h");
    c.on_chunk(b"\r\n\r\n{\"query\":\"a\xffb\"");
    match c.on_end() {
        ExitAction::Finish { ip, .. } => assert_eq!(ip, "a\u{fffd}b"),
        _ => panic!("the address was in the reply"),
    }
}

fn path_of(act: StartAction) -> String {
    match act {
        StartAction::CheckExists { path } => path,
        _ => panic!("a look for an executable was expected"),
    }
}

/// A start with nothing running before it: nothing to stop, then a look for
/// the first executable.
fn fresh_start(started: (Vec<Proc>, StartAction)) -> String {
    assert!(started.0.is_empty(), "nothing ran before this start");
    path_of(started.1)
}

#[test]
fn a_global_chain_with_the_tunnel_comes_up_step_by_step() {
    let mut s = Supervisor::new("/res", "/data");
    s.set_tunnel(true);
    let aether = fresh_start(s.start_in(Engine::Global, " nl "));
    assert!(aether.ends_with("aether") || aether.ends_with("aether.exe"));
    match s.on_exists(true) {
        StartAction::Spawn { args, env, cwd, log, .. } => {
            assert_eq!(args, strings(&["--bind", "127.0.0.1:1819"]));
            assert_eq!(env.len(), 9);
            assert_eq!(cwd, "/data");
            assert!(log.ends_with("aether.log"));
        }
        _ => panic!("Aether is started first"),
    }
    match s.on_spawned(true) {
        StartAction::Watch { port, secs } => assert_eq!((port, secs), (AETHER_PORT, 120)),
        _ => panic!("Aether's port is watched"),
    }
    assert!(matches!(s.on_probe(true, false, false), StartAction::Pause));
    let global = path_of(s.on_probe(true, true, false));
    assert!(global.ends_with("global") || global.ends_with("global.exe"));
    let config = match s.on_exists(true) {
        StartAction::WriteFile { dir, path, text } => {
            assert!(path.starts_with(&dir));
            assert!(text.contains("\"UpstreamProxyURL\":\"socks5://127.0.0.1:1819\""), "{text}");
            assert!(text.contains("\"EgressRegion\":\"NL\""), "{text}");
            path
        }
        _ => panic!("Global's config is written before it starts"),
    };
    match s.on_written(true) {
        StartAction::Spawn { args, .. } => assert_eq!(args, vec!["-config".to_string(), config]),
        _ => panic!("Global is started with its config"),
    }
    match s.on_spawned(true) {
        StartAction::Watch { port, secs } => assert_eq!((port, secs), (GLOBAL_PORT, 150)),
        _ => panic!("Global's port is watched"),
    }
    let tunnel = path_of(s.on_probe(true, true, false));
    assert!(tunnel.ends_with("sing-box") || tunnel.ends_with("sing-box.exe"));
    match s.on_exists(true) {
        StartAction::WriteFile { text, .. } => assert!(text.contains("\"server_port\": 1820")),
        _ => panic!("the tunnel's config is written"),
    }
    match s.on_written(true) {
        StartAction::SpawnTunnel { log, .. } => assert!(log.ends_with("tunnel.log")),
        _ => panic!("the tunnel is started"),
    }
    match s.on_spawned(true) {
        StartAction::Watch { port, secs } => assert_eq!((port, secs), (TUN_API_PORT, 20)),
        _ => panic!("the tunnel's control port is watched"),
    }
    match s.on_probe(true, true, false) {
        StartAction::Ready { socks } => assert_eq!(socks, GLOBAL_PORT),
        _ => panic!("the chain is up"),
    }
    assert_eq!(s.current(), Some(Engine::Global));
    assert_eq!(s.socks_port(), Some(GLOBAL_PORT));
    assert_eq!(s.region(), "NL");
    assert_eq!(s.stage(), Stage::Idle);
    assert_eq!(
        s.stop(),
        vec![Proc::Tunnel, Proc::Core(Engine::Global), Proc::Core(Engine::Aether)]
    );
    assert!(s.stop().is_empty());
    assert_eq!(s.current(), None);
    assert_eq!(s.socks_port(), None);
    assert_eq!(s.region(), "");
}

/// What is to be stopped, in order, whether the tunnel process just started
/// is to be killed, why, and what the failure says.
fn failed(act: StartAction) -> (Vec<Proc>, bool, StartErrorKind, String) {
    match act {
        StartAction::Fail { stop, kill_tunnel, error } => (stop, kill_tunnel, error.kind, error.message),
        _ => panic!("a failure was expected"),
    }
}

fn watching_aether(s: &mut Supervisor) {
    fresh_start(s.start(Engine::Aether));
    s.on_exists(true);
    s.on_spawned(true);
}

#[test]
fn a_core_that_exits_or_never_listens_tears_the_start_down() {
    let mut s = Supervisor::new("/res", "/data");
    watching_aether(&mut s);
    let (stop, kill, kind, message) = failed(s.on_probe(true, false, true));
    assert_eq!(stop, vec![Proc::Core(Engine::Aether)]);
    assert!(!kill);
    assert_eq!(kind, StartErrorKind::ConnectionRefused);
    assert!(message.starts_with("Aether exited before it could connect; see "), "{message}");
    assert!(message.ends_with("aether.log"), "{message}");

    watching_aether(&mut s);
    let (stop, _, kind, message) = failed(s.on_probe(false, false, false));
    assert_eq!(stop, vec![Proc::Core(Engine::Aether)]);
    assert_eq!(kind, StartErrorKind::TimedOut);
    assert!(message.starts_with("Aether started but never accepted connections; see "), "{message}");

    // A port that opened wins over an exit seen at the same time.
    watching_aether(&mut s);
    assert!(matches!(s.on_probe(true, true, true), StartAction::Ready { socks: 1819 }));

    // A new start stops the chain that is up first.
    let (stopped, act) = s.start(Engine::Prowl);
    assert_eq!(stopped, vec![Proc::Core(Engine::Aether)]);
    path_of(act);
    assert_eq!(s.current(), None);
    assert!(s.running().is_empty());

    // A process that cannot be started at all.
    assert!(matches!(s.on_exists(true), StartAction::Spawn { .. }));
    let (stop, _, kind, _) = failed(s.on_spawned(false));
    assert!(stop.is_empty());
    assert_eq!(kind, StartErrorKind::Io);
    assert_eq!(s.socks_port(), None);
}

#[test]
fn a_global_config_that_cannot_be_written_stops_the_chain() {
    let mut s = Supervisor::new("/res", "/data");
    fresh_start(s.start(Engine::Global));
    s.on_exists(true);
    s.on_spawned(true);
    path_of(s.on_probe(true, true, false));
    assert_eq!(s.running(), &vec![Proc::Core(Engine::Aether)]);
    assert!(matches!(s.on_exists(true), StartAction::WriteFile { .. }));
    let (stop, kill, kind, message) = failed(s.on_written(false));
    assert_eq!(stop, vec![Proc::Core(Engine::Aether)]);
    assert!(!kill);
    assert_eq!(kind, StartErrorKind::Io);
    assert!(message.is_empty());
    assert!(s.running().is_empty());
    assert_eq!(s.current(), None);
    assert_eq!(s.stage(), Stage::Idle);
}

#[test]
fn only_the_global_engine_keeps_an_exit_country() {
    let mut s = Supervisor::new("/res", "/data");
    fresh_start(s.start_in(Engine::Aether, "nl"));
    s.on_exists(true);
    s.on_spawned(true);
    assert!(matches!(s.on_probe(true, true, false), StartAction::Ready { socks: 1819 }));
    assert_eq!(s.region(), "");
    assert_eq!(s.running(), &vec![Proc::Core(Engine::Aether)]);
}

fn watching_tunnel(s: &mut Supervisor) {
    s.set_tunnel(true);
    watching_aether(s);
    path_of(s.on_probe(true, true, false));
    s.on_exists(true);
    s.on_written(true);
    s.on_spawned(true);
}

#[test]
fn a_tunnel_that_fails_takes_the_chain_down_with_it() {
    let mut s = Supervisor::new("/res", "/data");
    watching_tunnel(&mut s);
    let (stop, kill, kind, message) = failed(s.on_probe(true, false, true));
    assert_eq!(stop, vec![Proc::Core(Engine::Aether)]);
    assert!(!kill);
    assert_eq!(kind, StartErrorKind::PermissionDenied);
    assert!(message.starts_with("the tunnel could not start; see "), "{message}");

    watching_tunnel(&mut s);
    let (stop, kill, kind, message) = failed(s.on_probe(false, true, false));
    assert_eq!(stop, vec![Proc::Core(Engine::Aether)]);
    assert!(kill);
    assert_eq!(kind, StartErrorKind::TimedOut);
    assert!(message.starts_with("the tunnel did not come up; see "), "{message}");

    // An exit is reported at once, even with the port open.
    watching_tunnel(&mut s);
    let (_, _, kind, _) = failed(s.on_probe(true, true, true));
    assert_eq!(kind, StartErrorKind::PermissionDenied);

    s.set_tunnel(true);
    watching_aether(&mut s);
    path_of(s.on_probe(true, true, false));
    let (stop, _, kind, message) = failed(s.on_exists(false));
    assert_eq!(stop, vec![Proc::Core(Engine::Aether)]);
    assert_eq!(kind, StartErrorKind::NotFound);
    assert!(message.starts_with("the tunnel core was not found at /res"), "{message}");
    assert_eq!(s.current(), None);
}
