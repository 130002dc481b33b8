//! The agent demo: one handshake with an agent on this machine.

use vstd::prelude::*;

use crate::config::join_path;
use crate::proto::{envelope, Envelope, Payload, Request};
use crate::tasks::build_agents::cargo_hint;
use crate::tasks::demo::below;
use crate::tasks::preflight::{ensure_on_path, probe_complaint, Probe};
use crate::text::{decimal, decimal_string, join, joined, texts};

verus! {

/// Milliseconds that the agent gets to answer.
pub const HANDSHAKE_BUDGET_MS: u64 = 5_000;

/// Where the demo keeps its files, in the directory `temp`.
pub fn demo_root(temp: Vec<u8>) -> (r: Vec<u8>)
    ensures
        r@ == below(temp@, "tepegoz-demo-phase-6"@),
{
    join_path(temp, "tepegoz-demo-phase-6")
}

/// Checks that the demo can start.
pub fn preflight(cargo: &Probe) -> (r: Result<(), String>)
    ensures
        r is Ok <==> cargo is Started,
        r matches Err(text) ==> text@ == probe_complaint("cargo"@, cargo_hint(), *cargo),
{
    ensure_on_path(
        "cargo",
        "cargo is required — install Rust via https://rustup.rs and retry",
        cargo,
    )
}

/// The request that the demo makes.
pub fn handshake_request() -> (e: Envelope)
    ensures
        e@ == (Request::AgentHandshake { request_id: 1 }),
{
    envelope(Payload::AgentHandshake { request_id: 1 })
}

/// What is said of an answer.
pub open spec fn handshake_text(
    request_id: u64,
    version: u32,
    os: Seq<char>,
    arch: Seq<char>,
    capabilities: Seq<Seq<char>>,
) -> Seq<Seq<char>> {
    seq![
        ""@,
        "  agent handshake ✓"@,
        "    request_id:   "@ + decimal(request_id as nat),
        "    version:      "@ + decimal(version as nat),
        "    os:           "@ + os,
        "    arch:         "@ + arch,
        "    capabilities: "@ + (if capabilities.len() == 0 {
            "(none — 6a ships an empty list; 6c/d populate)"@
        } else {
            joined(capabilities, ", "@)
        }),
        ""@,
    ]
}

/// What is said of the agent's answer, line by line. `shown` is the payload
/// written out, for the case that it is none of the expected ones.
pub fn handshake_report(payload: &Payload, shown: &str) -> (r: Result<Vec<String>, String>)
    ensures
        r is Ok <==> payload is AgentHandshakeResponse,
        payload matches Payload::AgentHandshakeResponse {
            request_id,
            version,
            os,
            arch,
            capabilities,
        } ==> texts((r->Ok_0)@) == handshake_text(
            *request_id,
            *version,
            os@,
            arch@,
            texts(capabilities@),
        ),
        r matches Err(text) ==> text@ == (match *payload {
            Payload::Error(e) => "agent returned Error("@ + e.kind.spec_name() + "): "@
                + e.message@,
            _ => "expected AgentHandshakeResponse, got "@ + shown@,
        }),
{
    match payload {
        Payload::AgentHandshakeResponse { request_id, version, os, arch, capabilities } => {
            let mut v: Vec<String> = Vec::new();
            v.push(String::from_str(""));
            v.push(String::from_str("  agent handshake ✓"));
            v.push(
                String::from_str("    request_id:   ").concat(
                    decimal_string(*request_id).as_str(),
                ),
            );
            v.push(
                String::from_str("    version:      ").concat(
                    decimal_string(*version as u64).as_str(),
                ),
            );
            v.push(String::from_str("    os:           ").concat(os.as_str()));
            v.push(String::from_str("    arch:         ").concat(arch.as_str()));
            let offered: String = if capabilities.len() == 0 {
                String::from_str("(none — 6a ships an empty list; 6c/d populate)")
            } else {
                join(capabilities, ", ")
            };
            v.push(String::from_str("    capabilities: ").concat(offered.as_str()));
            v.push(String::from_str(""));
            proof {
                assert(texts(capabilities@).len() == capabilities@.len());
                assert(texts(v@) =~= handshake_text(
                    *request_id,
                    *version,
                    os@,
                    arch@,
                    texts(capabilities@),
                ));
            }
            Ok(v)
        },
        Payload::Error(e) => Err(
            String::from_str("agent returned Error(").concat(e.kind.name()).concat("): ").concat(
                e.message.as_str(),
            ),
        ),
        _ => Err(String::from_str("expected AgentHandshakeResponse, got ").concat(shown)),
    }
}

/// What is said after cleaning up. `removed` is the path written out, if
/// there was anything.
pub fn teardown_message(removed: Option<&str>) -> (r: String)
    ensures
        r@ == (match removed {
            Some(path) => "[demo-phase-6] removed "@ + path@,
            None => "[demo-phase-6] nothing to tear down (no fixture present)."@,
        }),
{
    match removed {
        Some(path) => String::from_str("[demo-phase-6] removed ").concat(path),
        None => String::from_str("[demo-phase-6] nothing to tear down (no fixture present)."),
    }
}

} // verus!
