//! The engines, the ports they serve on, and the chain of processes each one
//! needs. An engine is not always a single process: the Global engine cannot
//! reach its own bootstrap host from the networks this client exists for, so
//! it is dialled through the Aether tunnel, which is why a plan is a list of
//! steps.

use vstd::prelude::*;
use crate::text::{ascii_lower, chars_of, to_ascii_lower};

verus! {

/// Aether's own documented default, so the address users see matches its docs.
pub const AETHER_PORT: u16 = 1819;

/// The Global engine listens one port up, because both are alive at once.
pub const GLOBAL_PORT: u16 = 1820;

/// Prowl's port, kept distinct for the same reason.
pub const PROWL_PORT: u16 = 1821;

/// sing-box's local control API. Nothing talks to it; it opening is simply the
/// signal that sing-box got through its start-up, TUN included.
pub const TUN_API_PORT: u16 = 1830;

#[derive(Debug, Clone, Copy, PartialEq, Eq, Structural)]
pub enum Engine {
    Aether,
    Global,
    Prowl,
}

/// One process of a chain: which engine, the port it serves on, and the
/// port of the hop it is dialled through, if any.
#[derive(Debug, Clone, Copy, PartialEq, Eq, Structural)]
pub struct Step {
    pub engine: Engine,
    pub port: u16,
    pub upstream: Option<u16>,
}

/// The processes to bring up, in order, and the port the finished chain
/// serves on.
#[derive(Debug, Clone, PartialEq, Eq)]
pub struct Plan {
    pub steps: Vec<Step>,
    pub socks: u16,
}

/// The file name of an engine's executable, without any platform suffix.
pub open spec fn stem_of(e: Engine) -> Seq<char> {
    match e {
        Engine::Aether => seq!['a', 'e', 't', 'h', 'e', 'r'],
        Engine::Global => seq!['g', 'l', 'o', 'b', 'a', 'l'],
        Engine::Prowl => seq!['p', 'r', 'o', 'w', 'l'],
    }
}

/// The name an engine is shown under.
pub open spec fn label_of(e: Engine) -> Seq<char> {
    match e {
        Engine::Aether => seq!['A', 'e', 't', 'h', 'e', 'r'],
        Engine::Global => seq!['G', 'l', 'o', 'b', 'a', 'l'],
        Engine::Prowl => seq!['P', 'r', 'o', 'w', 'l'],
    }
}

/// A text with its ASCII upper-case letters made lower case.
pub open spec fn lowered(s: Seq<char>) -> Seq<char> {
    s.map_values(|c: char| ascii_lower(c))
}

/// The engine a name picks, compared without regard to ASCII case.
pub open spec fn engine_named(s: Seq<char>) -> Option<Engine> {
    if lowered(s) == stem_of(Engine::Aether) {
        Some(Engine::Aether)
    } else if lowered(s) == stem_of(Engine::Global) {
        Some(Engine::Global)
    } else if lowered(s) == stem_of(Engine::Prowl) {
        Some(Engine::Prowl)
    } else {
        None
    }
}

/// The steps of an engine's chain.
pub open spec fn plan_steps(e: Engine) -> Seq<Step> {
    match e {
        Engine::Aether => seq![Step { engine: Engine::Aether, port: AETHER_PORT, upstream: None }],
        Engine::Global => seq![
            Step { engine: Engine::Aether, port: AETHER_PORT, upstream: None },
            Step { engine: Engine::Global, port: GLOBAL_PORT, upstream: Some(AETHER_PORT) },
        ],
        Engine::Prowl => seq![Step { engine: Engine::Prowl, port: PROWL_PORT, upstream: None }],
    }
}

/// The port an engine's finished chain serves on.
pub open spec fn plan_socks(e: Engine) -> u16 {
    match e {
        Engine::Aether => AETHER_PORT,
        Engine::Global => GLOBAL_PORT,
        Engine::Prowl => PROWL_PORT,
    }
}

/// How long, in seconds, a step of the given engine may take to open its port.
pub open spec fn timeout_secs(e: Engine) -> u64 {
    match e {
        Engine::Global => 150,
        _ => 120,
    }
}

/// The duration of a whole number of seconds (`Duration::from_secs`).
pub uninterp spec fn secs_duration(secs: u64) -> std::time::Duration;

/// `std::time::Duration::from_secs`; the result is named, nothing more is
/// claimed of it here.
#[verifier::external_body]
fn duration_from_secs(secs: u64) -> (d: std::time::Duration)
    ensures
        d == secs_duration(secs),
{
    std::time::Duration::from_secs(secs)
}

fn same_chars(a: &Vec<char>, b: &Vec<char>) -> (r: bool)
    ensures
        r == (a@ == b@),
{
    if a.len() != b.len() {
        return false;
    }
    let mut i: usize = 0;
    while i < a.len()
        invariant
            i <= a.len(),
            a.len() == b.len(),
            forall|k: int| 0 <= k < i ==> a@[k] == b@[k],
        decreases a.len() - i,
    {
        if a[i] != b[i] {
            return false;
        }
        i = i + 1;
    }
    assert(a@ =~= b@);
    true
}

fn stem_chars(e: Engine) -> (r: Vec<char>)
    ensures
        r@ == stem_of(e),
{
    let v: Vec<char> = match e {
        Engine::Aether => vec!['a', 'e', 't', 'h', 'e', 'r'],
        Engine::Global => vec!['g', 'l', 'o', 'b', 'a', 'l'],
        Engine::Prowl => vec!['p', 'r', 'o', 'w', 'l'],
    };
    assert(v@ =~= stem_of(e));
    v
}

impl Engine {
    pub fn parse(s: &str) -> (r: Option<Self>)
        ensures
            r == engine_named(s@),
    {
        let chars = chars_of(s);
        let mut low: Vec<char> = Vec::new();
        let mut i: usize = 0;
        while i < chars.len()
            invariant
                i <= chars.len(),
                low@ == lowered(chars@.take(i as int)),
            decreases chars.len() - i,
        {
            low.push(to_ascii_lower(chars[i]));
            i = i + 1;
            assert(low@ =~= lowered(chars@.take(i as int)));
        }
        assert(chars@.take(chars.len() as int) =~= s@);
        if same_chars(&low, &stem_chars(Engine::Aether)) {
            Some(Engine::Aether)
        } else if same_chars(&low, &stem_chars(Engine::Global)) {
            Some(Engine::Global)
        } else if same_chars(&low, &stem_chars(Engine::Prowl)) {
            Some(Engine::Prowl)
        } else {
            None
        }
    }

    pub fn label(self) -> (r: &'static str)
        ensures
            r@ == label_of(self),
    {
        match self {
            Engine::Aether => {
                proof {
                    reveal_strlit("Aether");
                }
                let r = "Aether";
                assert(r@ =~= label_of(self));
                r
            },
            Engine::Global => {
                proof {
                    reveal_strlit("Global");
                }
                let r = "Global";
                assert(r@ =~= label_of(self));
                r
            },
            Engine::Prowl => {
                proof {
                    reveal_strlit("Prowl");
                }
                let r = "Prowl";
                assert(r@ =~= label_of(self));
                r
            },
        }
    }

    /// File name of the bundled executable, without the .exe suffix.
    pub fn binary_stem(self) -> (r: &'static str)
        ensures
            r@ == stem_of(self),
    {
        match self {
            Engine::Aether => {
                proof {
                    reveal_strlit("aether");
                }
                let r = "aether";
                assert(r@ =~= stem_of(self));
                r
            },
            Engine::Global => {
                proof {
                    reveal_strlit("global");
                }
                let r = "global";
                assert(r@ =~= stem_of(self));
                r
            },
            Engine::Prowl => {
                proof {
                    reveal_strlit("prowl");
                }
                let r = "prowl";
                assert(r@ =~= stem_of(self));
                r
            },
        }
    }

    /// The processes to bring up, in order, and the port the finished chain
    /// serves on.
    pub fn plan(self) -> (r: Plan)
        ensures
            r.steps@ == plan_steps(self),
            r.socks == plan_socks(self),
    {
        match self {
            Engine::Aether => Plan {
                steps: vec![Step { engine: Engine::Aether, port: AETHER_PORT, upstream: None }],
                socks: AETHER_PORT,
            },
            // Dialled through Aether, never straight at the network: on its
            // own it cannot fetch its server list or reach its servers.
            Engine::Global => Plan {
                steps: vec![
                    Step { engine: Engine::Aether, port: AETHER_PORT, upstream: None },
                    Step { engine: Engine::Global, port: GLOBAL_PORT, upstream: Some(AETHER_PORT) },
                ],
                socks: GLOBAL_PORT,
            },
            Engine::Prowl => Plan {
                steps: vec![Step { engine: Engine::Prowl, port: PROWL_PORT, upstream: None }],
                socks: PROWL_PORT,
            },
        }
    }
}

/// How long, in seconds, a step may take to open its port. Aether's first
/// run has to register an account and scan for a gateway before it listens,
/// and Global needs longer again because it rides on Aether.
pub fn step_timeout_secs(engine: Engine) -> (r: u64)
    ensures
        r == timeout_secs(engine),
{
    match engine {
        Engine::Global => 150,
        _ => 120,
    }
}

/// How long a step may take to open its port.
pub fn step_timeout(engine: Engine) -> (r: std::time::Duration)
    ensures
        r == secs_duration(timeout_secs(engine)),
{
    duration_from_secs(step_timeout_secs(engine))
}

/// Every chain is a proper chain: it has at least one step, the first step
/// is dialled straight at the network, each later step is dialled through
/// the one before it, no two steps share a port, the last step is the engine
/// that was asked for, and the chain serves on its last step's port.
pub proof fn lemma_plan_is_a_chain(e: Engine)
    ensures
        plan_steps(e).len() >= 1,
        plan_steps(e)[0].upstream is None,
        forall|i: int|
            0 < i < plan_steps(e).len() ==> #[trigger] plan_steps(e)[i].upstream == Some(
                plan_steps(e)[i - 1].port,
            ),
        forall|i: int, j: int|
            0 <= i < j < plan_steps(e).len() ==> plan_steps(e)[i].port != plan_steps(e)[j].port,
        plan_steps(e).last().engine == e,
        plan_socks(e) == plan_steps(e).last().port,
{
}

/// Only the Global engine is dialled through another hop: any other engine
/// is brought up alone, straight at the network, on the port its chain
/// serves on.
pub proof fn lemma_only_global_rides_another_hop(e: Engine)
    requires
        e != Engine::Global,
    ensures
        plan_steps(e).len() == 1,
        plan_steps(e)[0] == (Step { engine: e, port: plan_socks(e), upstream: None }),
        forall|i: int| 0 <= i < plan_steps(e).len() ==> (#[trigger] plan_steps(e)[i]).upstream is None,
{
}

/// The Global engine is always carried inside Aether: its chain is Aether
/// first, then Global dialled through Aether's port.
pub proof fn lemma_global_rides_on_aether()
    ensures
        plan_steps(Engine::Global).len() == 2,
        plan_steps(Engine::Global)[0].engine == Engine::Aether,
        plan_steps(Engine::Global)[1].engine == Engine::Global,
        plan_steps(Engine::Global)[1].upstream == Some(AETHER_PORT),
        plan_socks(Engine::Global) == GLOBAL_PORT,
{
}

/// An engine's shown name and its executable's name both parse back to the
/// engine, whatever the case they are written in.
pub proof fn lemma_names_parse_back(e: Engine)
    ensures
        engine_named(label_of(e)) == Some(e),
        engine_named(stem_of(e)) == Some(e),
{
    assert(lowered(label_of(e)) =~= stem_of(e));
    assert(lowered(stem_of(e)) =~= stem_of(e));
}

} // verus!
