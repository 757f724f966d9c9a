//! What each process of a chain is told: its command line, its environment,
//! and the configuration files written for the Global engine and for the
//! whole-system tunnel.

use vstd::prelude::*;
use crate::engine::{Engine, Step, TUN_API_PORT};
use crate::json::{escape, json_quoted, json_string, lemma_escape_plain, lemma_json_string_decodes, plain_text, unescape};
use crate::paths::{aether_identity, aether_identity_path};
use crate::region::{normalise_region, normalised_region};
use crate::text::{contains_text, decimal, lemma_contains_in_concat, lemma_contains_itself, lemma_contains_trans, port_text};

verus! {

broadcast use vstd::string::group_string_axioms;

// Taken from the Android build's Global engine so both platforms speak to the
// same network with the same identity.
pub const PROPAGATION_CHANNEL_ID: &'static str = "FFFFFFFFFFFFFFFF";

pub const SPONSOR_ID: &'static str = "FFFFFFFFFFFFFFFF";

pub const SERVER_LIST_URL: &'static str =
    "https://s3.amazonaws.com//psiphon/web/mjr4-p23r-puwl/server_list_compressed";

pub const SERVER_LIST_KEY: &'static str = "MIICIDANBgkqhkiG9w0BAQEFAAOCAg0AMIICCAKCAgEAt7Ls+/39r+T6zNW7GiVpJfzq/xvL9SBH5rIFnk0RXYEYavax3WS6HOD35eTAqn8AniOwiH+DOkvgSKF2caqk/y1dfq47Pdymtwzp9ikpB1C5OfAysXzBiwVJlCdajBKvBZDerV1cMvRzCKvKwRmvDmHgphQQ7WfXIGbRbmmk6opMBh3roE42KcotLFtqp0RRwLtcBRNtCdsrVsjiI1Lqz/lH+T61sGjSjQ3CHMuZYSQJZo/KrvzgQXpkaCTdbObxHqb6/+i1qaVOfEsvjoiyzTxJADvSytVtcTjijhPEV6XskJVHE1Zgl+7rATr/pDQkw6DPCNBS1+Y6fy7GstZALQXwEDN/qhQI9kWkHijT8ns+i1vGg00Mk/6J75arLhqcodWsdeG/M/moWgqQAnlZAGVtJI1OgeF5fsPpXu4kctOfuZlGjVZXQNW34aOzm8r8S0eVZitPlbhcPiR4gT/aSMz/wd8lZlzZYsje/Jr8u/YtlwjjreZrGRmG8KMOzukV3lLmMppXFMvl4bxv6YFEmIuTsOhbLTwFgh7KYNjodLj/LsqRVfwz31PgWQFTEPICV7GCvgVlPRxnofqKSjgTWI4mxDhBpVcATvaoBl1L/6WLbFvBsoAUBItWwctO2xalKxF5szhGm8lccoc5MZr8kfE0uxMgsxz4er68iCID+rsCAQM=";

/// The processes whose own traffic must never be sent back into the tunnel,
/// or every packet they send would loop through themselves.
pub const TUN_BYPASS: [&'static str; 4] = ["aether.exe", "global.exe", "prowl.exe", "sing-box.exe"];

/// The tunnel config up to the engine's SOCKS port.
pub const TUN_HEAD: &'static str = r#"{
  "log": {"level": "warn", "timestamp": true},
  "dns": {
    "servers": [{"type": "tcp", "tag": "remote", "server": "1.1.1.1", "detour": "proxy"}],
    "strategy": "ipv4_only",
    "final": "remote"
  },
  "inbounds": [{
    "type": "tun",
    "tag": "tun-in",
    "interface_name": "Panther",
    "address": ["172.19.0.1/30", "fdfe:dcba:9876::1/126"],
    "mtu": 9000,
    "auto_route": true,
    "strict_route": true,
    "stack": "mixed"
  }],
  "outbounds": [
    {"type": "socks", "tag": "proxy", "server": "127.0.0.1", "server_port": "#;

/// The tunnel config from after the engine's port up to the processes that bypass the tunnel.
pub const TUN_AFTER_PORT: &'static str = r#", "version": "5"},
    {"type": "direct", "tag": "direct"}
  ],
  "route": {
    "auto_detect_interface": true,
    "find_process": true,
    "rules": [
      {"process_name": ["#;

/// The tunnel config from after the bypass list up to the control API's port.
pub const TUN_AFTER_BYPASS: &'static str = r#"], "outbound": "direct"},
      {"action": "sniff"},
      {"protocol": "dns", "action": "hijack-dns"},
      {"ip_is_private": true, "outbound": "direct"},
      {"ip_version": 6, "action": "reject"}
    ],
    "final": "proxy"
  },
  "experimental": {
    "clash_api": {"external_controller": "127.0.0.1:"#;

/// The end of the tunnel config.
pub const TUN_TAIL: &'static str = r#""}
  }
}
"#;

/// The parts joined with the separator between each two of them.
pub open spec fn joined(parts: Seq<Seq<char>>, sep: Seq<char>) -> Seq<char>
    decreases parts.len(),
{
    if parts.len() == 0 {
        seq![]
    } else if parts.len() == 1 {
        parts[0]
    } else {
        joined(parts.drop_last(), sep) + sep + parts.last()
    }
}

/// Each part is found in the parts joined.
pub proof fn lemma_part_of_joined(parts: Seq<Seq<char>>, sep: Seq<char>, k: int)
    requires
        0 <= k < parts.len(),
    ensures
        contains_text(joined(parts, sep), parts[k]),
    decreases parts.len(),
{
    lemma_contains_itself(parts[k]);
    if parts.len() == 1 {
    } else if k == parts.len() - 1 {
        lemma_contains_in_concat(joined(parts.drop_last(), sep) + sep, parts.last(), parts[k]);
    } else {
        lemma_part_of_joined(parts.drop_last(), sep, k);
        assert(parts.drop_last()[k] == parts[k]);
        lemma_contains_in_concat(joined(parts.drop_last(), sep), sep, parts[k]);
        lemma_contains_in_concat(joined(parts.drop_last(), sep) + sep, parts.last(), parts[k]);
    }
}

/// Joins the parts with the separator between each two of them.
pub fn join_with(parts: &Vec<String>, sep: &str) -> (r: String)
    ensures
        r@ == joined(parts.deep_view(), sep@),
{
    let ghost dv = parts.deep_view();
    let mut out = String::new();
    let mut i: usize = 0;
    while i < parts.len()
        invariant
            i <= parts.len(),
            dv == parts.deep_view(),
            dv.len() == parts.len(),
            out@ == joined(dv.take(i as int), sep@),
        decreases parts.len() - i,
    {
        proof {
            assert(dv[i as int] == parts@[i as int]@);
            assert(dv.take(i + 1).drop_last() =~= dv.take(i as int));
        }
        if i > 0 {
            out.append(sep);
        } else {
            assert(out@ =~= Seq::<char>::empty());
        }
        out.append(parts[i].as_str());
        i = i + 1;
        proof {
            if i == 1 {
                assert(out@ =~= joined(dv.take(1), sep@));
            } else {
                assert(out@ =~= joined(dv.take(i as int), sep@));
            }
        }
    }
    assert(dv.take(parts.len() as int) =~= dv);
    out
}

/// The loopback address of a local port.
pub open spec fn loopback(port: u16) -> Seq<char> {
    "127.0.0.1:"@ + decimal(port as nat)
}

pub fn loopback_text(port: u16) -> (r: String)
    ensures
        r@ == loopback(port),
{
    let mut s = "127.0.0.1:".to_string();
    s.append(port_text(port).as_str());
    s
}

/// The command line of one step. Aether is only told where to listen;
/// Global and Prowl are given the path of their config file, or an empty
/// argument where there is none.
pub open spec fn step_args(step: Step, config: Option<Seq<char>>) -> Seq<Seq<char>> {
    let cfg = match config {
        Some(c) => c,
        None => Seq::<char>::empty(),
    };
    match step.engine {
        Engine::Aether => seq!["--bind"@, loopback(step.port)],
        Engine::Global => seq!["-config"@, cfg],
        Engine::Prowl => seq!["run"@, "-c"@, cfg],
    }
}

pub open spec fn opt_view(config: Option<&str>) -> Option<Seq<char>> {
    match config {
        Some(c) => Some(c@),
        None => None,
    }
}

/// Arguments for one step. The Global engine's config path is produced by
/// writing its config file and passed in.
pub fn args_for(step: Step, config: Option<&str>) -> (r: Vec<String>)
    ensures
        r.deep_view() == step_args(step, opt_view(config)),
{
    let cfg = match config {
        Some(c) => c.to_string(),
        None => String::new(),
    };
    let r = match step.engine {
        // Only the address goes on the command line. Everything else about
        // how Aether connects is set through its environment.
        Engine::Aether => vec!["--bind".to_string(), loopback_text(step.port)],
        Engine::Global => vec!["-config".to_string(), cfg],
        Engine::Prowl => vec!["run".to_string(), "-c".to_string(), cfg],
    };
    assert(r.deep_view() =~= step_args(step, opt_view(config)));
    r
}

/// The environment of one step: for Aether, the Android build's defaults
/// (the gool protocol, turbo scan, IPv4, the firewall noise profile), where
/// to listen and where to keep its identity; nothing for the others.
pub open spec fn step_env(step: Step, data: Seq<char>) -> Seq<(Seq<char>, Seq<char>)> {
    match step.engine {
        Engine::Aether => seq![
            ("AETHER_PROTOCOL"@, "gool"@),
            ("AETHER_SCAN"@, "turbo"@),
            ("AETHER_IP"@, "v4"@),
            ("AETHER_NOIZE"@, "firewall"@),
            ("AETHER_LOG_LEVEL"@, "info"@),
            ("AETHER_QUICK_RECONNECT"@, "1"@),
            ("AETHER_WG_STALE_SECS"@, "30"@),
            ("AETHER_SOCKS"@, loopback(step.port)),
            ("AETHER_CONFIG"@, aether_identity(data)),
        ],
        _ => seq![],
    }
}

fn pair(k: &str, v: &str) -> (r: (String, String))
    ensures
        r.0@ == k@,
        r.1@ == v@,
{
    (k.to_string(), v.to_string())
}

/// Environment for one step. The desktop build first shipped with a
/// different protocol on an older core and never connected, so the two
/// platforms are kept identical on purpose.
pub fn env_for(step: Step, data: &str) -> (r: Vec<(String, String)>)
    ensures
        r.deep_view() == step_env(step, data@),
{
    match step.engine {
        Engine::Aether => {
            let socks = loopback_text(step.port);
            let identity = aether_identity_path(data);
            let r = vec![
                pair("AETHER_PROTOCOL", "gool"),
                pair("AETHER_SCAN", "turbo"),
                pair("AETHER_IP", "v4"),
                pair("AETHER_NOIZE", "firewall"),
                pair("AETHER_LOG_LEVEL", "info"),
                pair("AETHER_QUICK_RECONNECT", "1"),
                pair("AETHER_WG_STALE_SECS", "30"),
                ("AETHER_SOCKS".to_string(), socks),
                ("AETHER_CONFIG".to_string(), identity),
            ];
            assert(r.deep_view() =~= step_env(step, data@));
            r
        },
        _ => {
            let r: Vec<(String, String)> = Vec::new();
            assert(r.deep_view() =~= step_env(step, data@));
            r
        },
    }
}


/// Text between two quotes.
pub open spec fn quoted(s: Seq<char>) -> Seq<char> {
    "\""@ + s + "\""@
}

/// The fields of the Global engine's config, in the order they are written:
/// its fixed identity and server list, where it keeps its data, the port it
/// serves on, then the hop it is dialled through and the exit country when
/// there are any.
pub open spec fn global_fields(store: Seq<char>, port: u16, upstream: Option<u16>, region: Seq<char>) -> Seq<Seq<char>> {
    let fixed = seq![
        "\"PropagationChannelId\":"@ + quoted(PROPAGATION_CHANNEL_ID@),
        "\"SponsorId\":"@ + quoted(SPONSOR_ID@),
        "\"RemoteServerListUrl\":"@ + quoted(SERVER_LIST_URL@),
        "\"RemoteServerListSignaturePublicKey\":"@ + quoted(SERVER_LIST_KEY@),
        "\"RemoteServerListDownloadFilename\":\"remote_server_list\""@,
        "\"DataRootDirectory\":"@ + json_quoted(store),
        "\"MigrateDataStoreDirectory\":"@ + json_quoted(store),
        "\"ClientPlatform\":\"Windows_Panther\""@,
        "\"LocalSocksProxyPort\":"@ + decimal(port as nat),
        "\"DisableLocalHTTPProxy\":true"@,
        "\"EmitDiagnosticNotices\":true"@,
    ];
    let with_upstream = match upstream {
        Some(up) => fixed.push("\"UpstreamProxyURL\":"@ + quoted("socks5://"@ + loopback(up))),
        None => fixed,
    };
    let code = normalised_region(region);
    if code.len() == 0 {
        with_upstream
    } else {
        with_upstream.push("\"EgressRegion\":"@ + quoted(code))
    }
}

/// The Global engine's config file: its fields joined by commas inside one
/// pair of braces.
pub open spec fn global_config(store: Seq<char>, port: u16, upstream: Option<u16>, region: Seq<char>) -> Seq<char> {
    "{"@ + joined(global_fields(store, port, upstream, region), ","@) + "}"@
}

fn field(name: &str, value: &str) -> (r: String)
    ensures
        r@ == name@ + value@,
{
    let mut s = name.to_string();
    s.append(value);
    s
}

fn quoted_text(s: &str) -> (r: String)
    ensures
        r@ == quoted(s@),
{
    let mut q = "\"".to_string();
    q.append(s);
    q.append("\"");
    q
}

/// The Global engine takes its whole setup as a JSON file, so the file has to
/// be written before it starts. `store` is the directory it keeps its data
/// in, `port` the fixed port it serves on (fixed rather than 0 because the
/// desktop app has no callback channel to learn a random one), `upstream`
/// the hop it is dialled through, and `region` the exit country asked for:
/// empty, or anything that is not a country code, lets the engine choose.
pub fn global_config_text(store: &str, port: u16, upstream: Option<u16>, region: &str) -> (r: String)
    ensures
        r@ == global_config(store@, port, upstream, region@),
{
    let store_json = json_string(store);
    let mut fields: Vec<String> = vec![
        field("\"PropagationChannelId\":", quoted_text(PROPAGATION_CHANNEL_ID).as_str()),
        field("\"SponsorId\":", quoted_text(SPONSOR_ID).as_str()),
        field("\"RemoteServerListUrl\":", quoted_text(SERVER_LIST_URL).as_str()),
        field("\"RemoteServerListSignaturePublicKey\":", quoted_text(SERVER_LIST_KEY).as_str()),
        "\"RemoteServerListDownloadFilename\":\"remote_server_list\"".to_string(),
        field("\"DataRootDirectory\":", store_json.as_str()),
        field("\"MigrateDataStoreDirectory\":", store_json.as_str()),
        "\"ClientPlatform\":\"Windows_Panther\"".to_string(),
        field("\"LocalSocksProxyPort\":", port_text(port).as_str()),
        "\"DisableLocalHTTPProxy\":true".to_string(),
        "\"EmitDiagnosticNotices\":true".to_string(),
    ];
    let ghost fixed = fields.deep_view();
    if let Some(up) = upstream {
        let mut url = "socks5://".to_string();
        url.append(loopback_text(up).as_str());
        fields.push(field("\"UpstreamProxyURL\":", quoted_text(url.as_str()).as_str()));
    }
    let ghost with_upstream = fields.deep_view();
    assert(with_upstream =~= match upstream {
        Some(up) => fixed.push("\"UpstreamProxyURL\":"@ + quoted("socks5://"@ + loopback(up))),
        None => fixed,
    });
    // Empty means "let the engine choose". Asking for a country it is not
    // offering right now is not an error: it falls back to choosing itself.
    let code = normalise_region(region);
    if !code.as_str().is_empty() {
        fields.push(field("\"EgressRegion\":", quoted_text(code.as_str()).as_str()));
    }
    assert(fields.deep_view() =~= global_fields(store@, port, upstream, region@));
    let body = join_with(&fields, ",");
    let mut text = "{".to_string();
    text.append(body.as_str());
    text.append("}");
    text
}

/// A field of the Global engine's config is found in its text.
proof fn lemma_global_field_in_config(
    store: Seq<char>,
    port: u16,
    upstream: Option<u16>,
    region: Seq<char>,
    k: int,
)
    requires
        0 <= k < global_fields(store, port, upstream, region).len(),
    ensures
        contains_text(global_config(store, port, upstream, region), global_fields(store, port, upstream, region)[k]),
{
    let fields = global_fields(store, port, upstream, region);
    lemma_part_of_joined(fields, ","@, k);
    lemma_contains_in_concat("{"@, joined(fields, ","@), fields[k]);
    lemma_contains_in_concat("{"@ + joined(fields, ","@), "}"@, fields[k]);
}

/// The Global engine's config always names the port it is to serve on and
/// where it keeps its data; it names the hop it is dialled through whenever
/// there is one, and the exit country whenever the one asked for is a
/// country code.
pub proof fn lemma_global_config_names_its_setup(store: Seq<char>, port: u16, upstream: Option<u16>, region: Seq<char>)
    ensures
        contains_text(global_config(store, port, upstream, region), "\"LocalSocksProxyPort\":"@ + decimal(port as nat)),
        contains_text(global_config(store, port, upstream, region), "\"DataRootDirectory\":"@ + json_quoted(store)),
        upstream matches Some(up) ==> contains_text(
            global_config(store, port, upstream, region),
            "\"UpstreamProxyURL\":"@ + quoted("socks5://"@ + loopback(up)),
        ),
        normalised_region(region).len() > 0 ==> contains_text(
            global_config(store, port, upstream, region),
            "\"EgressRegion\":"@ + quoted(normalised_region(region)),
        ),
{
    let fields = global_fields(store, port, upstream, region);
    assert(fields[8] == "\"LocalSocksProxyPort\":"@ + decimal(port as nat));
    lemma_global_field_in_config(store, port, upstream, region, 8);
    assert(fields[5] == "\"DataRootDirectory\":"@ + json_quoted(store));
    lemma_global_field_in_config(store, port, upstream, region, 5);
    if let Some(up) = upstream {
        assert(fields[11] == "\"UpstreamProxyURL\":"@ + quoted("socks5://"@ + loopback(up)));
        lemma_global_field_in_config(store, port, upstream, region, 11);
    }
    if normalised_region(region).len() > 0 {
        let last = fields.len() - 1;
        assert(fields[last] == "\"EgressRegion\":"@ + quoted(normalised_region(region)));
        lemma_global_field_in_config(store, port, upstream, region, last);
    }
}

/// Whether a field of a JSON object is the one with the given name, given
/// as its quoted name and colon.
pub open spec fn is_field(f: Seq<char>, name_colon: Seq<char>) -> bool {
    f.len() >= name_colon.len() && f.take(name_colon.len() as int) == name_colon
}

proof fn lemma_field_starts(lit: Seq<char>, rest: Seq<char>, name_colon: Seq<char>, k: int)
    requires
        0 <= k < lit.len(),
        k < name_colon.len(),
        lit[k] != name_colon[k],
    ensures
        !is_field(lit + rest, name_colon),
{
    if is_field(lit + rest, name_colon) {
        assert((lit + rest).take(name_colon.len() as int)[k] == (lit + rest)[k]);
    }
}

/// The Global engine's config has a field naming an upstream hop exactly
/// when there is one, and a field naming an exit country exactly when the
/// one asked for is a country code: anything else lets the engine choose.
pub proof fn lemma_global_config_fields_only_when_asked(
    store: Seq<char>,
    port: u16,
    upstream: Option<u16>,
    region: Seq<char>,
)
    ensures
        (exists|k: int|
            0 <= k < global_fields(store, port, upstream, region).len() && is_field(
                #[trigger] global_fields(store, port, upstream, region)[k],
                "\"UpstreamProxyURL\":"@,
            )) <==> upstream is Some,
        (exists|k: int|
            0 <= k < global_fields(store, port, upstream, region).len() && is_field(
                #[trigger] global_fields(store, port, upstream, region)[k],
                "\"EgressRegion\":"@,
            )) <==> normalised_region(region).len() > 0,
{
    reveal_strlit("\"PropagationChannelId\":");
    reveal_strlit("\"SponsorId\":");
    reveal_strlit("\"RemoteServerListUrl\":");
    reveal_strlit("\"RemoteServerListSignaturePublicKey\":");
    reveal_strlit("\"RemoteServerListDownloadFilename\":\"remote_server_list\"");
    reveal_strlit("\"DataRootDirectory\":");
    reveal_strlit("\"MigrateDataStoreDirectory\":");
    reveal_strlit("\"ClientPlatform\":\"Windows_Panther\"");
    reveal_strlit("\"LocalSocksProxyPort\":");
    reveal_strlit("\"DisableLocalHTTPProxy\":true");
    reveal_strlit("\"EmitDiagnosticNotices\":true");
    reveal_strlit("\"UpstreamProxyURL\":");
    reveal_strlit("\"EgressRegion\":");
    let fields = global_fields(store, port, upstream, region);
    let up = "\"UpstreamProxyURL\":"@;
    let eg = "\"EgressRegion\":"@;
    let e = Seq::<char>::empty();
    // Every field that is written starts with its own name, and no two names
    // start alike: the second or third character tells them apart.
    assert forall|k: int| 0 <= k < fields.len() implies {
        &&& (is_field(fields[k], up) ==> upstream is Some && k == 11)
        &&& (is_field(fields[k], eg) ==> k == fields.len() - 1 && normalised_region(region).len() > 0)
    } by {
        let f = fields[k];
        if k == 0 {
            lemma_field_starts("\"PropagationChannelId\":"@, quoted(PROPAGATION_CHANNEL_ID@), up, 1);
            lemma_field_starts("\"PropagationChannelId\":"@, quoted(PROPAGATION_CHANNEL_ID@), eg, 1);
        } else if k == 1 {
            lemma_field_starts("\"SponsorId\":"@, quoted(SPONSOR_ID@), up, 1);
            lemma_field_starts("\"SponsorId\":"@, quoted(SPONSOR_ID@), eg, 1);
        } else if k == 2 {
            lemma_field_starts("\"RemoteServerListUrl\":"@, quoted(SERVER_LIST_URL@), up, 1);
            lemma_field_starts("\"RemoteServerListUrl\":"@, quoted(SERVER_LIST_URL@), eg, 1);
        } else if k == 3 {
            lemma_field_starts("\"RemoteServerListSignaturePublicKey\":"@, quoted(SERVER_LIST_KEY@), up, 1);
            lemma_field_starts("\"RemoteServerListSignaturePublicKey\":"@, quoted(SERVER_LIST_KEY@), eg, 1);
        } else if k == 4 {
            let l = "\"RemoteServerListDownloadFilename\":\"remote_server_list\""@;
            assert(f =~= l + e);
            lemma_field_starts(l, e, up, 1);
            lemma_field_starts(l, e, eg, 1);
        } else if k == 5 {
            lemma_field_starts("\"DataRootDirectory\":"@, json_quoted(store), up, 1);
            lemma_field_starts("\"DataRootDirectory\":"@, json_quoted(store), eg, 1);
        } else if k == 6 {
            lemma_field_starts("\"MigrateDataStoreDirectory\":"@, json_quoted(store), up, 1);
            lemma_field_starts("\"MigrateDataStoreDirectory\":"@, json_quoted(store), eg, 1);
        } else if k == 7 {
            let l = "\"ClientPlatform\":\"Windows_Panther\""@;
            assert(f =~= l + e);
            lemma_field_starts(l, e, up, 1);
            lemma_field_starts(l, e, eg, 1);
        } else if k == 8 {
            lemma_field_starts("\"LocalSocksProxyPort\":"@, decimal(port as nat), up, 1);
            lemma_field_starts("\"LocalSocksProxyPort\":"@, decimal(port as nat), eg, 1);
        } else if k == 9 {
            let l = "\"DisableLocalHTTPProxy\":true"@;
            assert(f =~= l + e);
            lemma_field_starts(l, e, up, 1);
            lemma_field_starts(l, e, eg, 1);
        } else if k == 10 {
            let l = "\"EmitDiagnosticNotices\":true"@;
            assert(f =~= l + e);
            lemma_field_starts(l, e, up, 1);
            lemma_field_starts(l, e, eg, 2);
        } else if k == 11 && upstream is Some {
            let u = upstream->0;
            lemma_field_starts(up, quoted("socks5://"@ + loopback(u)), eg, 1);
        } else {
            lemma_field_starts(eg, quoted(normalised_region(region)), up, 1);
        }
    }
    if let Some(u) = upstream {
        assert(fields[11] == up + quoted("socks5://"@ + loopback(u)));
        assert(fields[11].take(up.len() as int) =~= up);
        assert(is_field(fields[11], up));
    }
    if normalised_region(region).len() > 0 {
        let last = fields.len() - 1;
        assert(fields[last] == eg + quoted(normalised_region(region)));
        assert(fields[last].take(eg.len() as int) =~= eg);
        assert(is_field(fields[last], eg));
    }
}

/// Where the Global engine keeps its data is written twice, as its data
/// root and as the directory to migrate into, both times as a JSON string
/// that reads back as exactly that path, whatever characters it holds (a
/// Windows path's backslashes among them).
pub proof fn lemma_global_config_store_reads_back(store: Seq<char>, port: u16, upstream: Option<u16>, region: Seq<char>)
    ensures
        contains_text(
            global_config(store, port, upstream, region),
            "\"DataRootDirectory\":\""@ + escape(store) + "\""@,
        ),
        contains_text(
            global_config(store, port, upstream, region),
            "\"MigrateDataStoreDirectory\":\""@ + escape(store) + "\""@,
        ),
        unescape(escape(store)) == Some(store),
{
    reveal_strlit("\"DataRootDirectory\":\"");
    reveal_strlit("\"MigrateDataStoreDirectory\":\"");
    reveal_strlit("\"DataRootDirectory\":");
    reveal_strlit("\"MigrateDataStoreDirectory\":");
    reveal_strlit("\"");
    lemma_json_string_decodes(store);
    let fields = global_fields(store, port, upstream, region);
    assert(fields[5] =~= "\"DataRootDirectory\":\""@ + escape(store) + "\""@);
    assert(fields[6] =~= "\"MigrateDataStoreDirectory\":\""@ + escape(store) + "\""@);
    lemma_global_field_in_config(store, port, upstream, region, 5);
    lemma_global_field_in_config(store, port, upstream, region, 6);
}

/// The processes' bypass entries, each as a JSON string, comma-separated.
pub open spec fn bypass_list() -> Seq<char> {
    joined(seq![
        json_quoted("aether.exe"@),
        json_quoted("global.exe"@),
        json_quoted("prowl.exe"@),
        json_quoted("sing-box.exe"@),
    ], ","@)
}

/// The processes whose traffic bypasses the tunnel are listed as the
/// elements of a JSON array: the cores' executables, each a JSON string,
/// separated by commas, and nothing else; the tunnel's config holds that
/// list whatever port the chain serves on.
pub proof fn lemma_bypass_list_is_a_json_array_of_the_cores(socks_port: u16)
    ensures
        bypass_list() == "\"aether.exe\",\"global.exe\",\"prowl.exe\",\"sing-box.exe\""@,
        contains_text(tunnel_config(socks_port), "\"aether.exe\",\"global.exe\",\"prowl.exe\",\"sing-box.exe\""@),
{
    reveal_strlit("aether.exe");
    reveal_strlit("global.exe");
    reveal_strlit("prowl.exe");
    reveal_strlit("sing-box.exe");
    reveal_strlit(",");
    reveal_strlit("\"aether.exe\",\"global.exe\",\"prowl.exe\",\"sing-box.exe\"");
    let a = "aether.exe"@;
    let g = "global.exe"@;
    let p = "prowl.exe"@;
    let b = "sing-box.exe"@;
    assert(plain_text(a));
    assert(plain_text(g));
    assert(plain_text(p));
    assert(plain_text(b));
    lemma_escape_plain(a);
    lemma_escape_plain(g);
    lemma_escape_plain(p);
    lemma_escape_plain(b);
    let names = seq![json_quoted(a), json_quoted(g), json_quoted(p), json_quoted(b)];
    assert(names.drop_last() =~= seq![json_quoted(a), json_quoted(g), json_quoted(p)]);
    assert(names.drop_last().drop_last() =~= seq![json_quoted(a), json_quoted(g)]);
    assert(names.drop_last().drop_last().drop_last() =~= seq![json_quoted(a)]);
    assert(joined(seq![json_quoted(a)], ","@) == json_quoted(a));
    assert(joined(seq![json_quoted(a), json_quoted(g)], ","@) == json_quoted(a) + ","@ + json_quoted(g));
    assert(joined(seq![json_quoted(a), json_quoted(g), json_quoted(p)], ","@) == json_quoted(a) + ","@
        + json_quoted(g) + ","@ + json_quoted(p));
    assert(bypass_list() == json_quoted(a) + ","@ + json_quoted(g) + ","@ + json_quoted(p) + ","@ + json_quoted(b));
    assert(bypass_list() =~= "\"aether.exe\",\"global.exe\",\"prowl.exe\",\"sing-box.exe\""@);
    let head = TUN_HEAD@ + decimal(socks_port as nat) + TUN_AFTER_PORT@;
    let tail = TUN_AFTER_BYPASS@ + decimal(TUN_API_PORT as nat) + TUN_TAIL@;
    lemma_contains_itself(bypass_list());
    lemma_contains_in_concat(head, bypass_list(), bypass_list());
    lemma_contains_in_concat(head + bypass_list(), tail, bypass_list());
    assert(tunnel_config(socks_port) =~= head + bypass_list() + tail);
}

/// The whole-system tunnel's config for an engine chain serving on the
/// given port.
pub open spec fn tunnel_config(socks_port: u16) -> Seq<char> {
    TUN_HEAD@ + decimal(socks_port as nat) + TUN_AFTER_PORT@ + bypass_list() + TUN_AFTER_BYPASS@
        + decimal(TUN_API_PORT as nat) + TUN_TAIL@
}

/// The tunnel's config serves the engine's port and names every core, as a
/// JSON string, among the processes whose traffic bypasses the tunnel.
pub proof fn lemma_tunnel_config_bypasses_the_cores(socks_port: u16, k: int)
    requires
        0 <= k < 4,
    ensures
        tunnel_config(socks_port) == TUN_HEAD@ + decimal(socks_port as nat) + TUN_AFTER_PORT@ + bypass_list()
            + TUN_AFTER_BYPASS@ + decimal(TUN_API_PORT as nat) + TUN_TAIL@,
        contains_text(
            tunnel_config(socks_port),
            json_quoted(seq!["aether.exe"@, "global.exe"@, "prowl.exe"@, "sing-box.exe"@][k]),
        ),
{
    let names = seq![
        json_quoted("aether.exe"@),
        json_quoted("global.exe"@),
        json_quoted("prowl.exe"@),
        json_quoted("sing-box.exe"@),
    ];
    assert(names[k] == json_quoted(seq!["aether.exe"@, "global.exe"@, "prowl.exe"@, "sing-box.exe"@][k]));
    lemma_part_of_joined(names, ","@, k);
    let head = TUN_HEAD@ + decimal(socks_port as nat) + TUN_AFTER_PORT@;
    let tail = TUN_AFTER_BYPASS@ + decimal(TUN_API_PORT as nat) + TUN_TAIL@;
    lemma_contains_in_concat(head, bypass_list(), names[k]);
    lemma_contains_in_concat(head + bypass_list(), tail, names[k]);
    assert(tunnel_config(socks_port) =~= head + bypass_list() + tail);
}

/// The engine's port changes nothing in the tunnel's config but the port
/// itself: for any two ports the configs have the same text before it (the
/// head, which leads up to the proxy outbound's port) and the same text after
/// it.
pub proof fn lemma_tunnel_config_differs_only_in_the_port(p: u16, q: u16)
    ensures
        tunnel_config(p).take(TUN_HEAD@.len() as int) == tunnel_config(q).take(TUN_HEAD@.len() as int),
        tunnel_config(p).take(TUN_HEAD@.len() as int) == TUN_HEAD@,
        tunnel_config(p).subrange(TUN_HEAD@.len() as int, TUN_HEAD@.len() as int + decimal(p as nat).len())
            == decimal(p as nat),
        tunnel_config(p).skip(TUN_HEAD@.len() as int + decimal(p as nat).len()) == tunnel_config(q).skip(
            TUN_HEAD@.len() as int + decimal(q as nat).len(),
        ),
{
    let rest = TUN_AFTER_PORT@ + bypass_list() + TUN_AFTER_BYPASS@ + decimal(TUN_API_PORT as nat)
        + TUN_TAIL@;
    assert(tunnel_config(p) =~= TUN_HEAD@ + decimal(p as nat) + rest);
    assert(tunnel_config(q) =~= TUN_HEAD@ + decimal(q as nat) + rest);
    assert(tunnel_config(p).take(TUN_HEAD@.len() as int) =~= TUN_HEAD@);
    assert(tunnel_config(q).take(TUN_HEAD@.len() as int) =~= TUN_HEAD@);
    assert(tunnel_config(p).subrange(TUN_HEAD@.len() as int, TUN_HEAD@.len() as int + decimal(p as nat).len())
        =~= decimal(p as nat));
    assert(tunnel_config(p).skip(TUN_HEAD@.len() as int + decimal(p as nat).len()) =~= rest);
    assert(tunnel_config(q).skip(TUN_HEAD@.len() as int + decimal(q as nat).len()) =~= rest);
}

/// The whole-system tunnel: sing-box owns a TUN adapter, takes every app's
/// traffic and hands it to the engine's local SOCKS port.
///
/// - The cores themselves go out directly (`TUN_BYPASS`), or their own traffic
///   would be fed back into them.
/// - DNS is answered inside the tunnel, over TCP through the engine, so the ISP
///   never sees the lookups. IPv4 only, because the engines are IPv4 only;
///   IPv6 is captured and refused so apps fall back to IPv4 at once instead of
///   leaking around the tunnel or hanging.
pub fn tun_config(socks_port: u16) -> (r: String)
    ensures
        r@ == tunnel_config(socks_port),
{
    // The same names as `TUN_BYPASS`, in the same order.
    let names: Vec<String> = vec![
        json_string("aether.exe"),
        json_string("global.exe"),
        json_string("prowl.exe"),
        json_string("sing-box.exe"),
    ];
    assert(names.deep_view() =~= seq![
        json_quoted("aether.exe"@),
        json_quoted("global.exe"@),
        json_quoted("prowl.exe"@),
        json_quoted("sing-box.exe"@),
    ]);
    let bypass = join_with(&names, ",");
    let mut text = TUN_HEAD.to_string();
    text.append(port_text(socks_port).as_str());
    text.append(TUN_AFTER_PORT);
    text.append(bypass.as_str());
    text.append(TUN_AFTER_BYPASS);
    text.append(port_text(TUN_API_PORT).as_str());
    text.append(TUN_TAIL);
    assert(text@ =~= tunnel_config(socks_port));
    text
}

} // verus!
