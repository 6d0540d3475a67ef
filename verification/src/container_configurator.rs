//! Computes the container-creation specification: the fixed service port,
//! its engine-assigned host binding, the service startup command, the
//! engine-socket bind and the optional shared-network attachment.
//!
//! The unverified shell around this crate translates the specification into
//! the engine API's creation body and performs the self-inspection that
//! discovers the shared network.
use vstd::prelude::*;

verus! {

/// One host binding for the exposed service port: a wildcard host address
/// and an empty host port, which asks the engine to assign one.
pub struct PortBindingSpec {
    pub host_ip: String,
    pub host_port: String,
}

/// The full container-creation specification.
pub struct ContainerSpec {
    /// The image to start from.
    pub image: String,
    /// The container command: the in-container service binary.
    pub cmd: Vec<String>,
    /// Allocate a pseudo-TTY, so combined output behaves predictably.
    pub tty: bool,
    /// The user to run as, when one was configured.
    pub user: Option<String>,
    /// The exposed service port, in the engine's `port/proto` form.
    pub exposed_port: String,
    /// The host binding for the exposed port.
    pub port_binding: PortBindingSpec,
    /// Let the engine remove the container once it stops.
    pub auto_remove: bool,
    /// The engine-socket bind, `host-socket:conventional-container-path`,
    /// when the host socket path is known.
    pub socket_bind: Option<String>,
    /// The shared network to attach to, when one was discovered.
    pub network_mode: Option<String>,
}

/// Computes container-creation specifications for one known engine-socket
/// path.
pub struct ContainerConfigurator {
    pub socket_path: Option<String>,
}

impl ContainerConfigurator {
    /// Remembers the engine-socket path to bind into new containers, if
    /// known.
    pub fn new(socket_path: Option<String>) -> (r: ContainerConfigurator)
        ensures
            r.socket_path == socket_path,
    {
        ContainerConfigurator { socket_path }
    }

    /// Computes the creation specification: the fixed service port exposed
    /// and bound to an engine-assigned host port, the service binary as the
    /// command, a pseudo-TTY, engine-side auto-removal, the configured
    /// user, the engine-socket bind when the socket path is known, and the
    /// discovered network when one was handed in.
    pub fn create_container_config(
        &self,
        image_name: &str,
        user: Option<&String>,
        network: Option<String>,
    ) -> (r: ContainerSpec)
        ensures
            r.image@ == image_name@,
            r.cmd@.len() == 1 && r.cmd@[0]@ == "swiftide-docker-service"@,
            r.tty == true,
            match user {
                Some(u) => r.user matches Some(ru) && ru@ == u@,
                None => r.user is None,
            },
            r.exposed_port@ == "50051/tcp"@,
            r.port_binding.host_ip@ == "0.0.0.0"@,
            r.port_binding.host_port@.len() == 0,
            r.auto_remove == true,
            match self.socket_path {
                Some(sp) => r.socket_bind matches Some(b) && b@ == sp@
                    + ":/var/run/docker.sock"@,
                None => r.socket_bind is None,
            },
            r.network_mode == network,
    {
        let mut cmd: Vec<String> = Vec::new();
        cmd.push("swiftide-docker-service".to_owned());
        let socket_bind = match &self.socket_path {
            Some(sp) => {
                let mut b = sp.clone();
                b.append(":/var/run/docker.sock");
                Some(b)
            },
            None => None,
        };
        ContainerSpec {
            image: image_name.to_owned(),
            cmd,
            tty: true,
            user: match user {
                Some(u) => Some(u.clone()),
                None => None,
            },
            exposed_port: "50051/tcp".to_owned(),
            port_binding: PortBindingSpec {
                host_ip: "0.0.0.0".to_owned(),
                host_port: String::new(),
            },
            auto_remove: true,
            socket_bind,
            network_mode: network,
        }
    }
}

/// The shared network to attach a new container to, given the names of the
/// networks the current process's own container is attached to: the first
/// name that is not the default bridge, else the first name, else none.
pub open spec fn spec_pick_network(names: Seq<String>) -> Option<Seq<char>> {
    if exists|i: int| 0 <= i < names.len() && names[i]@ != "bridge"@ {
        Some(names[spec_first_non_bridge(names)]@)
    } else if names.len() > 0 {
        Some(names[0]@)
    } else {
        None
    }
}

/// The least index whose name is not the bridge network.
pub open spec fn spec_first_non_bridge(names: Seq<String>) -> int
    decreases names.len(),
{
    if names.len() == 0 {
        0
    } else if names[0]@ != "bridge"@ {
        0
    } else {
        1 + spec_first_non_bridge(names.skip(1))
    }
}

proof fn lemma_first_non_bridge(names: Seq<String>)
    ensures
        0 <= spec_first_non_bridge(names) <= names.len(),
        forall|j: int| 0 <= j < spec_first_non_bridge(names) ==> names[j]@ == "bridge"@,
        spec_first_non_bridge(names) < names.len() ==> names[spec_first_non_bridge(names)]@
            != "bridge"@,
    decreases names.len(),
{
    if names.len() == 0 {
    } else if names[0]@ != "bridge"@ {
    } else {
        lemma_first_non_bridge(names.skip(1));
        assert forall|j: int| 0 <= j < spec_first_non_bridge(names) implies names[j]@
            == "bridge"@ by {
            if j > 0 {
                assert(names.skip(1)[j - 1] == names[j]);
            }
        }
        if spec_first_non_bridge(names) < names.len() {
            assert(names.skip(1)[spec_first_non_bridge(names) - 1]
                == names[spec_first_non_bridge(names)]);
        }
    }
}

/// Picks the network to attach to, as `spec_pick_network` describes.
pub fn pick_network(names: &Vec<String>) -> (r: Option<String>)
    ensures
        r is Some <==> spec_pick_network(names@) is Some,
        r matches Some(n) ==> spec_pick_network(names@) == Some(n@),
{
    let bridge = "bridge".to_owned();
    let mut i: usize = 0;
    while i < names.len()
        invariant
            0 <= i <= names@.len(),
            bridge@ == "bridge"@,
            forall|j: int| 0 <= j < i ==> #[trigger] names@[j]@ == "bridge"@,
        decreases names@.len() - i,
    {
        if !(names[i] == bridge) {
            proof {
                lemma_first_non_bridge(names@);
                assert(spec_first_non_bridge(names@) == i as int) by {
                    if spec_first_non_bridge(names@) < i as int {
                        assert(names@[spec_first_non_bridge(names@)]@ == "bridge"@);
                    }
                    if spec_first_non_bridge(names@) > i as int {
                        assert(names@[i as int]@ == "bridge"@);
                    }
                }
            }
            return Some(names[i].clone());
        }
        i += 1;
    }
    if names.len() > 0 {
        proof {
            assert(forall|j: int| 0 <= j < names@.len() ==> #[trigger] names@[j]@ == "bridge"@);
        }
        return Some(names[0].clone());
    }
    None
}

} // verus!
