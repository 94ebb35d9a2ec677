//! The sandbox manager's typed core: the session-scoped names every
//! container-engine call uses, the port-resolution and teardown decisions,
//! and the assembly of command output. The engine calls themselves are made
//! by the unverified shell.

use vstd::prelude::*;
use vstd::string::StringExecFns;
use crate::errors::VirtualMachineError;
use crate::ids::new_session_id;

verus! {

/// How many times port resolution is attempted before it is a fatal
/// `Port` error.
pub const PORT_RESOLUTION_ATTEMPTS: u32 = 9;

/// Delay between port-resolution attempts, in ms.
pub const PORT_RETRY_DELAY_MS: u64 = 200;

/// The actuation endpoint's fixed port inside the container, as the engine
/// names it.
pub fn internal_port_key() -> (r: String)
    ensures
        r@ == ("3000/tcp")@,
{
    String::from_str("3000/tcp")
}

/// The sandbox core: the session id and the names derived from it, and
/// the host port once resolved.
pub struct VirtualMachine {
    pub id: String,
    pub container_name: String,
    pub network_name: String,
    pub port: Option<String>,
}

impl VirtualMachine {
    /// A fresh sandbox identity: container and network names derived from
    /// a new session id, no port yet.
    pub fn new() -> (v: Self)
        ensures
            v.id@.len() == 36,
            v.container_name@ == ("george-daemon-container-")@ + v.id@,
            v.network_name@ == ("george-network-")@ + v.id@,
            v.port is None,
    {
        let id = new_session_id();
        let mut container_name = String::from_str("george-daemon-container-");
        container_name.append(id.as_str());
        let mut network_name = String::from_str("george-network-");
        network_name.append(id.as_str());
        proof {
            assert(container_name@ =~= ("george-daemon-container-")@ + id@);
            assert(network_name@ =~= ("george-network-")@ + id@);
        }
        VirtualMachine { id, container_name, network_name, port: None }
    }

    /// The image name for this session.
    pub fn image_name(&self) -> (r: String)
        ensures
            r@ == ("george-daemon-image-")@ + self.id@,
    {
        let mut s = String::from_str("george-daemon-image-");
        s.append(self.id.as_str());
        proof {
            assert(s@ =~= ("george-daemon-image-")@ + self.id@);
        }
        s
    }

    /// Keep the resolved host port.
    pub fn set_port(&mut self, port: String)
        ensures
            final(self).port == Some(port),
            final(self).id == old(self).id,
            final(self).container_name == old(self).container_name,
            final(self).network_name == old(self).network_name,
    {
        self.port = Some(port);
    }
}

/// What one port-resolution attempt concluded: the engine either reported
/// a bound host port or did not — an absent port is the fatal `Port`
/// error, never a silent empty result.
pub fn port_from_resolution(resolved: Option<String>) -> (r: Result<String, VirtualMachineError>)
    ensures
        resolved matches Some(p) ==> (r matches Ok(q) && q == p),
        resolved is None ==> (r matches Err(e) && e is Port),
{
    match resolved {
        Some(p) => Ok(p),
        None => Err(VirtualMachineError::Port),
    }
}

/// Whether one more port-resolution attempt may run.
pub fn port_attempt_allowed(attempt: u32) -> (r: bool)
    ensures
        r == (attempt < PORT_RESOLUTION_ATTEMPTS),
{
    attempt < PORT_RESOLUTION_ATTEMPTS
}

/// A command may only be issued to a running container; fail fast with
/// `NotRunning` otherwise, never silently start it.
pub fn execute_precheck(running: bool) -> (r: Result<(), VirtualMachineError>)
    ensures
        running ==> r is Ok,
        !running ==> (r matches Err(e) && e is NotRunning),
{
    if running {
        Ok(())
    } else {
        Err(VirtualMachineError::NotRunning)
    }
}

/// Concatenate the attached output chunks of a command into one string,
/// in order.
pub fn concat_chunks(chunks: &Vec<String>) -> (r: String)
    ensures
        r@ == chunks.deep_view().flatten(),
{
    let mut out = String::new();
    let mut i: usize = 0;
    proof {
        assert(chunks.deep_view().take(0) =~= Seq::<Seq<char>>::empty());
        assert(out@ =~= chunks.deep_view().take(0).flatten_alt());
    }
    while i < chunks.len()
        invariant
            0 <= i <= chunks@.len(),
            chunks.deep_view().len() == chunks@.len(),
            out@ == chunks.deep_view().take(i as int).flatten_alt(),
        decreases chunks@.len() - i,
    {
        out.append(chunks[i].as_str());
        proof {
            assert(chunks.deep_view().take(i + 1).drop_last() =~= chunks.deep_view().take(i as int));
            assert(chunks.deep_view().take(i + 1).last() == chunks.deep_view()[i as int]);
            assert(chunks.deep_view()[i as int] == chunks@[i as int]@);
            assert(out@ =~= chunks.deep_view().take(i + 1).flatten_alt());
        }
        i = i + 1;
    }
    proof {
        assert(chunks.deep_view().take(chunks@.len() as int) =~= chunks.deep_view());
        chunks.deep_view().lemma_flatten_and_flatten_alt_are_equivalent();
    }
    out
}

/// The fixed message returned when a command was issued without waiting
/// for output.
pub fn command_started_message() -> (r: String)
    ensures
        r@ == ("Command started, not waiting for output")@,
{
    String::from_str("Command started, not waiting for output")
}

/// Teardown's overall result: stopping tolerates every failure (an
/// already-stopped container in particular), network removal is
/// best-effort, but the primary container removal decides: its failure
/// fails the stop.
pub fn teardown_outcome(remove_container: Result<(), String>) -> (r: Result<
    (),
    VirtualMachineError,
>)
    ensures
        remove_container is Ok ==> r is Ok,
        remove_container matches Err(m) ==> (r matches Err(e) && e matches
            VirtualMachineError::Docker(d) && d == m),
{
    match remove_container {
        Ok(_) => Ok(()),
        Err(m) => Err(VirtualMachineError::Docker(m)),
    }
}

} // verus!
