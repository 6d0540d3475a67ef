//! The container starter's decision core: the container's name, the
//! readiness wait over its log lines, and the ordered address-resolution
//! fallback. Creating, starting and inspecting the container are engine API
//! calls performed by the unverified shell around this crate.
use vstd::prelude::*;

use crate::errors::ContainerStartError;
use crate::text::{
    contains_sub, first_index_of, lemma_first_index_bounds, spec_contains, spec_first_index,
};

verus! {

/// The hard cap on readiness-poll iterations; with the fixed poll cadence
/// this bounds the wait at roughly ten seconds.
pub const READINESS_POLL_CAP: u64 = 100;

/// The image name with any tag suffix stripped: everything before the first
/// `:`, or the whole name when it has none.
pub open spec fn spec_strip_tag(image_name: Seq<char>) -> Seq<char> {
    image_name.take(spec_first_index(image_name, ':'))
}

/// The name with every `/` replaced by `-`, since `/` is invalid in
/// container names.
pub open spec fn spec_dashed(s: Seq<char>) -> Seq<char> {
    Seq::new(
        s.len(),
        |i: int|
            if s[i] == '/' {
                '-'
            } else {
                s[i]
            },
    )
}

/// The started container's name: the untagged, dash-safe image name joined
/// with the unique run identifier.
pub open spec fn spec_container_name(image_name: Seq<char>, run_id: Seq<char>) -> Seq<char> {
    spec_dashed(spec_strip_tag(image_name)) + seq!['-'] + run_id
}

/// Derives the container name, as `spec_container_name` describes.
pub fn container_name(image_name: &str, run_id: &str) -> (r: String)
    ensures
        r@ == spec_container_name(image_name@, run_id@),
{
    proof {
        lemma_first_index_bounds(image_name@, ':');
    }
    let cut = first_index_of(image_name, ':');
    let stripped = image_name.substring_char(0, cut);
    let m = stripped.unicode_len();
    let mut r = String::new();
    let mut i: usize = 0;
    while i < m
        invariant
            0 <= i <= m == stripped@.len(),
            stripped@ == spec_strip_tag(image_name@),
            r@ == spec_dashed(stripped@).take(i as int),
        decreases m - i,
    {
        if stripped.get_char(i) == '/' {
            r.append("-");
            proof {
                reveal_strlit("-");
                assert(r@ =~= spec_dashed(stripped@).take(i + 1));
            }
        } else {
            let piece = stripped.substring_char(i, i + 1);
            r.append(piece);
            proof {
                assert(piece@ =~= seq![stripped@[i as int]]);
                assert(r@ =~= spec_dashed(stripped@).take(i + 1));
            }
        }
        i += 1;
    }
    proof {
        assert(spec_dashed(stripped@).take(m as int) =~= spec_dashed(stripped@));
    }
    r.append("-");
    r.append(run_id);
    proof {
        reveal_strlit("-");
        assert(r@ =~= spec_container_name(image_name@, run_id@));
    }
    r
}

/// The in-container service logs this marker once its server is bound; the
/// readiness wait watches the container's log lines for it.
pub open spec fn spec_is_ready_line(line: Seq<char>) -> bool {
    spec_contains(line, "listening on"@)
}

/// Decides `spec_is_ready_line`.
pub fn is_ready_line(line: &str) -> (r: bool)
    ensures
        r == spec_is_ready_line(line@),
{
    contains_sub(line, "listening on")
}

/// One step of the readiness wait.
pub enum ReadinessStep {
    /// The poll cap is spent: stop waiting and proceed anyway.
    GiveUp,
    /// The marker was seen: the service is ready.
    Ready,
    /// Keep polling.
    Wait,
}

/// Decides one readiness-poll step: past the cap the wait gives up; a
/// readable line carrying the marker means ready; anything else waits on.
/// An unreadable log record is passed as `None`.
pub fn readiness_step(count: u64, line: Option<&String>) -> (r: ReadinessStep)
    ensures
        count > READINESS_POLL_CAP ==> r is GiveUp,
        count <= READINESS_POLL_CAP ==> match line {
            Some(l) => if spec_is_ready_line(l@) {
                r is Ready
            } else {
                r is Wait
            },
            None => r is Wait,
        },
{
    if count > READINESS_POLL_CAP {
        return ReadinessStep::GiveUp;
    }
    match line {
        Some(l) => {
            if is_ready_line(l.as_str()) {
                ReadinessStep::Ready
            } else {
                ReadinessStep::Wait
            }
        },
        None => ReadinessStep::Wait,
    }
}

/// The fixed port on which the in-container service listens.
pub fn service_port() -> (r: String)
    ensures
        r@ == "50051"@,
{
    "50051".to_owned()
}

/// Resolves how the caller reaches the started container, in priority
/// order: a container IP on a non-bridge network with the fixed service
/// port; else, when running inside a container itself, the host gateway
/// address with the fixed port; else loopback with the engine-mapped host
/// port. With none of the three available, a port-mapping error.
pub fn resolve_address(
    container_ip: Option<String>,
    running_in_docker: bool,
    gateway_ip: Option<String>,
    mapped_port: Option<String>,
) -> (r: Result<(String, String), ContainerStartError>)
    ensures
        match container_ip {
            Some(ip) => r matches Ok((rip, rport)) && rip == ip && rport@ == "50051"@,
            None => if running_in_docker && gateway_ip is Some {
                r matches Ok((rip, rport)) && rip == gateway_ip.unwrap() && rport@ == "50051"@
            } else {
                match mapped_port {
                    Some(port) => r matches Ok((rip, rport)) && rip@ == "127.0.0.1"@ && rport
                        == port,
                    None => r is Err,
                }
            },
        },
{
    if let Some(ip) = container_ip {
        return Ok((ip, service_port()));
    }
    if running_in_docker {
        if let Some(ip) = gateway_ip {
            return Ok((ip, service_port()));
        }
    }
    match mapped_port {
        Some(port) => Ok(("127.0.0.1".to_owned(), port)),
        None => Err(ContainerStartError::PortMapping("Failed to get container port".to_owned())),
    }
}

/// The IP address of the first network that is not the default bridge, if
/// that network reports one; networks are given as name and optional
/// address, in the order the engine reported them.
pub open spec fn spec_first_non_bridge_ip(nets: Seq<(String, Option<String>)>) -> Option<
    Seq<char>,
>
    decreases nets.len(),
{
    if nets.len() == 0 {
        None
    } else if nets[0].0@ != "bridge"@ {
        match nets[0].1 {
            Some(ip) => Some(ip@),
            None => None,
        }
    } else {
        spec_first_non_bridge_ip(nets.skip(1))
    }
}

/// Picks the container IP, as `spec_first_non_bridge_ip` describes.
pub fn first_non_bridge_ip(nets: &Vec<(String, Option<String>)>) -> (r: Option<String>)
    ensures
        r is Some <==> spec_first_non_bridge_ip(nets@) is Some,
        r matches Some(ip) ==> spec_first_non_bridge_ip(nets@) == Some(ip@),
{
    let bridge = "bridge".to_owned();
    let mut i: usize = 0;
    proof {
        assert(nets@.skip(0) =~= nets@);
    }
    while i < nets.len()
        invariant
            0 <= i <= nets@.len(),
            bridge@ == "bridge"@,
            spec_first_non_bridge_ip(nets@) == spec_first_non_bridge_ip(nets@.skip(i as int)),
        decreases nets@.len() - i,
    {
        if !(nets[i].0 == bridge) {
            proof {
                assert(nets@.skip(i as int)[0] == nets@[i as int]);
            }
            return match &nets[i].1 {
                Some(ip) => Some(ip.clone()),
                None => None,
            };
        }
        proof {
            assert(nets@.skip(i as int)[0] == nets@[i as int]);
            assert(nets@.skip(i as int).skip(1) =~= nets@.skip(i + 1));
        }
        i += 1;
    }
    proof {
        assert(nets@.skip(i as int) =~= Seq::<(String, Option<String>)>::empty());
    }
    None
}

} // verus!
