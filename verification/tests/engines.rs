use engcheck::{
    args_for, binary_path, config_file_in, env_for, global_config_text, global_store_dir,
    json_field, json_string, normalise_region, step_timeout, tun_config, Engine, ExitAction,
    ExitCheck, Stage, StartAction, StartErrorKind, Step, Supervisor, AETHER_PORT, GLOBAL_PORT,
    REGIONS, TUN_API_PORT, TUN_BYPASS,
};
use std::path::Path;
use std::time::Duration;

#[test]
fn parses_known_engines_and_rejects_others() {
    assert_eq!(Engine::parse("aether"), Some(Engine::Aether));
    assert_eq!(Engine::parse("GLOBAL"), Some(Engine::Global));
    assert_eq!(Engine::parse("Prowl"), Some(Engine::Prowl));
    assert_eq!(Engine::parse("lantern"), None);
    assert_eq!(Engine::parse(""), None);
}

#[test]
fn binary_path_matches_the_host_platform() {
    let p = binary_path("/res", Engine::Prowl);
    let name = Path::new(&p).file_name().unwrap().to_string_lossy().to_string();
    if std::path::MAIN_SEPARATOR == '\\' {
        assert_eq!(name, "prowl.exe");
    } else {
        assert_eq!(name, "prowl");
    }
}

#[test]
fn aether_runs_alone_on_its_documented_port() {
    let plan = Engine::Aether.plan();
    assert_eq!(plan.steps.len(), 1);
    assert_eq!(plan.socks, 1819);
    assert_eq!(plan.steps[0].upstream, None);
}

/// The whole reason the Global engine works at all: it is carried inside
/// Aether. If this ever becomes a single step it will connect on a free
/// network and fail on the networks that matter.
#[test]
fn global_is_chained_through_aether() {
    let plan = Engine::Global.plan();
    assert_eq!(plan.steps.len(), 2, "Global must be dialled through Aether");
    assert_eq!(plan.steps[0].engine, Engine::Aether);
    assert_eq!(plan.steps[1].engine, Engine::Global);
    assert_eq!(plan.steps[1].upstream, Some(AETHER_PORT));
    assert_eq!(plan.socks, GLOBAL_PORT, "the chain serves on the outer hop's port");
}

#[test]
fn chained_steps_never_share_a_port() {
    let plan = Engine::Global.plan();
    assert_ne!(plan.steps[0].port, plan.steps[1].port);
}

#[test]
fn aether_is_told_which_port_to_bind() {
    let step = Step { engine: Engine::Aether, port: 1819, upstream: None };
    let args = args_for(step, None).join(" ");
    assert!(args.contains("127.0.0.1:1819"), "got: {args}");
}

#[test]
fn aether_gets_the_android_settings() {
    let step = Step { engine: Engine::Aether, port: 1819, upstream: None };
    let env = env_for(step, "data");
    let get = |k: &str| env.iter().find(|(n, _)| n == k).map(|(_, v)| v.clone());
    assert_eq!(get("AETHER_PROTOCOL").as_deref(), Some("gool"));
    assert_eq!(get("AETHER_SCAN").as_deref(), Some("turbo"));
    assert_eq!(get("AETHER_IP").as_deref(), Some("v4"));
    assert_eq!(get("AETHER_NOIZE").as_deref(), Some("firewall"));
    assert_eq!(get("AETHER_SOCKS").as_deref(), Some("127.0.0.1:1819"));
    assert!(get("AETHER_CONFIG").unwrap().ends_with("aether.toml"));
    // masque never connected on the desktop build; keep it off the command line.
    assert!(!args_for(step, None).iter().any(|a| a == "--masque"));
}

#[test]
fn tun_config_points_at_the_engine_and_bypasses_the_cores() {
    let c = tun_config(1820);
    assert!(c.contains("\"server_port\": 1820"), "{c}");
    for p in TUN_BYPASS {
        assert!(c.contains(&format!("\"{p}\"")), "missing bypass for {p}");
    }
    assert!(c.contains(&format!("127.0.0.1:{TUN_API_PORT}")));
}

#[test]
fn json_field_reads_the_exit_reply() {
    let body = "HTTP/1.1 200 OK\r\n\r\n{\"query\": \"203.0.113.7\",\"countryCode\":\"CA\"}";
    assert_eq!(json_field(body, "query").as_deref(), Some("203.0.113.7"));
    assert_eq!(json_field(body, "countryCode").as_deref(), Some("CA"));
    assert_eq!(json_field(body, "missing"), None);
}

/// A full SOCKS5 exchange, byte by byte, against the answers a proxy that
/// forwards to an HTTP server gives: the greeting, the CONNECT by host name,
/// the request, and the reply that names the exit.
#[test]
fn exit_check_speaks_socks5_and_reads_the_answer() {
    let (mut check, act) = ExitCheck::new("example.test", 80, "/json/?fields=query,countryCode");
    match act {
        ExitAction::Exchange { send, receive } => {
            assert_eq!(send, vec![5, 1, 0]);
            assert_eq!(receive, 2);
        }
        _ => panic!("the check must open with the greeting"),
    }
    let act = check.on_bytes(&[5, 0]);
    let mut expected_req = vec![5u8, 1, 0, 3, 12];
    expected_req.extend_from_slice(b"example.test");
    expected_req.extend_from_slice(&80u16.to_be_bytes());
    match act {
        ExitAction::Exchange { send, receive } => {
            assert_eq!(&send[..4], &[5, 1, 0, 3]);
            assert_eq!(&send[5..send.len() - 2], b"example.test");
            assert_eq!(send, expected_req);
            assert_eq!(receive, 4);
        }
        _ => panic!("the check must send the connect request"),
    }
    let act = check.on_bytes(&[5, 0, 0, 1]);
    match act {
        ExitAction::Exchange { send, receive } => {
            assert!(send.is_empty());
            assert_eq!(receive, 6);
        }
        _ => panic!("the check must read the bound address"),
    }
    let act = check.on_bytes(&[127, 0, 0, 1, 0, 0]);
    match act {
        ExitAction::Stream { send } => {
            let req = String::from_utf8(send).unwrap();
            assert!(req.starts_with("GET /json/"), "{req}");
        }
        _ => panic!("the check must send its request"),
    }
    let act = check.on_chunk(
        b"HTTP/1.1 200 OK\r\nConnection: close\r\n\r\n{\"query\":\"198.51.100.4\",\"countryCode\":\"DE\"}",
    );
    match act {
        ExitAction::Finish { ip, country } => {
            assert_eq!(ip, "198.51.100.4");
            assert_eq!(country, "DE");
        }
        _ => panic!("the reply names the exit"),
    }
}

#[test]
fn timeouts_match_the_android_build() {
    assert_eq!(step_timeout(Engine::Aether), Duration::from_secs(120));
    assert_eq!(step_timeout(Engine::Global), Duration::from_secs(150));
}

#[test]
fn windows_paths_survive_json_escaping() {
    let escaped = json_string(r"C:\Users\Amir\AppData\Panther");
    assert_eq!(escaped, r#""C:\\Users\\Amir\\AppData\\Panther""#);
    // Every backslash must be doubled, or the engine refuses the file.
    let raw = r"C:\Users\Amir\AppData\Panther";
    assert_eq!(
        escaped.matches('\\').count(),
        raw.matches('\\').count() * 2,
        "each backslash must be escaped exactly once"
    );
}

fn global_config_in(data: &str, port: u16, upstream: Option<u16>, region: &str) -> (String, String) {
    let store = global_store_dir(data);
    let path = config_file_in(&store);
    (path, global_config_text(&store, port, upstream, region))
}

#[test]
fn global_config_carries_the_upstream_and_the_port() {
    let dir = String::from("/tmp/panther-cfg");
    let (path, text) = global_config_in(&dir, 1820, Some(1819), "");
    assert!(path.ends_with("config.json"));
    assert!(text.contains("\"LocalSocksProxyPort\":1820"), "{text}");
    assert!(text.contains("socks5://127.0.0.1:1819"), "{text}");
    assert!(text.contains("PropagationChannelId"), "{text}");
    // It has to be parseable JSON, not merely look like it.
    assert!(text.starts_with('{') && text.ends_with('}'));
    assert_eq!(text.matches('{').count(), 1);
}

#[test]
fn a_standalone_global_config_has_no_upstream() {
    let dir = String::from("/tmp/panther-cfg2");
    let (_, text) = global_config_in(&dir, 1820, None, "");
    assert!(!text.contains("UpstreamProxyURL"), "{text}");
}

#[test]
fn a_chosen_country_reaches_the_config() {
    let dir = String::from("/tmp/panther-cfg3");
    let (_, text) = global_config_in(&dir, 1820, Some(1819), "nl");
    assert!(text.contains("\"EgressRegion\":\"NL\""), "{text}");
}

#[test]
fn automatic_means_no_region_at_all() {
    let dir = String::from("/tmp/panther-cfg4");
    for asked in ["", "  ", "auto", "NLD", "1"] {
        let (_, text) = global_config_in(&dir, 1820, None, asked);
        assert!(!text.contains("EgressRegion"), "{asked:?} produced: {text}");
    }
}

#[test]
fn region_codes_are_normalised_or_dropped() {
    assert_eq!(normalise_region("nl"), "NL");
    assert_eq!(normalise_region(" de "), "DE");
    assert_eq!(normalise_region("USA"), "");
    assert_eq!(normalise_region("u1"), "");
    assert_eq!(normalise_region(""), "");
}

#[test]
fn the_offered_regions_are_well_formed() {
    assert!(REGIONS.len() >= 20);
    for r in REGIONS.iter() {
        assert_eq!(normalise_region(r), **r, "{r} is not a clean country code");
    }
}

#[test]
fn starting_a_missing_binary_is_an_error_not_a_panic() {
    let mut s = Supervisor::new("/definitely/not/here", "/tmp");
    let (stopped, act) = s.start(Engine::Aether);
    assert!(stopped.is_empty());
    let path = match act {
        StartAction::CheckExists { path } => path,
        _ => panic!("a start first looks for the executable"),
    };
    let found = Path::new(&path).exists();
    assert!(!found);
    match s.on_exists(found) {
        StartAction::Fail { stop, error, .. } => {
            assert!(stop.is_empty());
            assert_eq!(error.kind, StartErrorKind::NotFound);
            assert!(error.message.starts_with("Aether core was not found at /definitely/not/here"));
        }
        _ => panic!("a missing executable fails the start"),
    }
    // Nothing is running.
    assert!(s.running().is_empty());
    assert_eq!(s.stage(), Stage::Idle);
    assert_eq!(s.current(), None);
    assert_eq!(s.socks_port(), None);
}
