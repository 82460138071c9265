use vstd::prelude::*;

use rand::RngExt;

use crate::config::KConfig;
use crate::errors::NixModuleError;
use crate::strutil::dec_str;

verus! {

/// A fully computed subprocess invocation: program and argument list.
pub struct Cmd {
    pub program: String,
    pub args: Vec<String>,
}

/// The character sequences of a list of strings, in order.
pub open spec fn views_of(v: Seq<String>) -> Seq<Seq<char>> {
    Seq::new(v.len(), |i: int| v[i]@)
}

/// The user-mode network device argument forwarding a host port to the
/// guest's SSH port.
pub open spec fn spec_fwd_net(port: u16) -> Seq<char> {
    "user,host=10.0.2.10,hostfwd=tcp:127.0.0.1:"@ + dec_str(port as nat) + "-:22"@
}

/// The kernel boot-argument string around the configured root device.
pub open spec fn spec_bootargs(boot: Seq<char>) -> Seq<char> {
    "console=ttyS0 root="@ + boot + " earlyprintk=serial net.ifnames=0 nokaslr"@
}

/// The raw-format drive argument for the disk image.
pub open spec fn spec_drive_arg(disk: Seq<char>) -> Seq<char> {
    "file="@ + disk + ",format=raw"@
}

/// The full argument list of the virtualization process for one kernel:
/// caller extras, optional initrd, optional acceleration, optional debug
/// stub, then the fixed machine shape, kernel, boot arguments, disk, network
/// forwarding and bookkeeping.
pub open spec fn spec_qemu_args(k: KConfig, debug: bool, port: u16) -> Seq<Seq<char>> {
    (match k.runner_extra_args {
        Some(extra) => views_of(extra@),
        None => Seq::empty(),
    }) + (match k.disk.initrd {
        Some(initrd) => seq!["-initrd"@, initrd@],
        None => Seq::empty(),
    }) + (if k.kvm {
        seq!["-enable-kvm"@]
    } else {
        Seq::empty()
    }) + (if debug {
        seq!["-s"@]
    } else {
        Seq::empty()
    }) + seq![
        "-m"@,
        "512M"@,
        "-smp"@,
        "2"@,
        "-kernel"@,
        k.kernel@,
        "-append"@,
        spec_bootargs(k.disk.boot@),
        "-drive"@,
        spec_drive_arg(k.disk.path@),
        "-net"@,
        spec_fwd_net(port),
        "-net"@,
        "nic,model=e1000"@,
        "-nographic"@,
        "-pidfile"@,
        "vm.pid"@,
    ]
}

/// Relies on `rand::rng` and `rand::RngExt::random_range`: the sample lies
/// within the given (non-empty) range. Nothing else is assumed of it.
#[verifier::external_body]
fn sample_ephemeral_port() -> (p: u16)
    ensures
        1025 <= p,
{
    rand::rng().random_range(1025..=65535u16)
}

/// A running guest as the pipeline sees it: how to authenticate, which
/// forwarded port to reach, and which transfer protocol the host's client
/// needs. The virtualization process itself lives with the caller.
pub struct Qemu {
    pub sshkey: String,
    pub sshport: String,
    pub legacy_ssh: bool,
}

/// The remote-command argument list: key, port, no host-key check, user, and
/// the command itself.
pub open spec fn spec_ssh_args(key: Seq<char>, port: Seq<char>, cmd: Seq<char>) -> Seq<Seq<char>> {
    seq!["-i"@, key, "-p"@, port, "-oStrictHostKeyChecking=no"@, "root@localhost"@, cmd]
}

/// The file-transfer argument list. The compatibility flag `-O` is passed
/// exactly when the host client is *not* legacy: new clients must be forced
/// onto the old protocol the guest's server speaks.
pub open spec fn spec_scp_args(
    legacy: bool,
    key: Seq<char>,
    port: Seq<char>,
    local: Seq<char>,
    remote: Seq<char>,
) -> Seq<Seq<char>> {
    (if !legacy {
        seq!["-O"@]
    } else {
        Seq::empty()
    }) + seq![
        "-i"@,
        key,
        "-P"@,
        port,
        "-oStrictHostKeyChecking=no"@,
        local,
        "root@localhost:"@ + remote,
    ]
}

/// The interactive-session argument list: as for a remote command, with the
/// shell left to the remote end.
pub open spec fn spec_interact_args(key: Seq<char>, port: Seq<char>) -> Seq<Seq<char>> {
    seq!["-i"@, key, "-p"@, port, "-oStrictHostKeyChecking=no"@, "root@localhost"@]
}

impl Qemu {
    /// The virtualization-process invocation for `k`, with the guest's SSH
    /// service forwarded from host `port`.
    #[verifier::rlimit(60)]
    pub fn start_invocation(k: &KConfig, debug: bool, port: u16) -> (r: Cmd)
        ensures
            r.program@ == k.runner@,
            views_of(r.args@) == spec_qemu_args(*k, debug, port),
    {
        let ghost extra_seg: Seq<Seq<char>> = match &k.runner_extra_args {
            Some(extra) => views_of(extra@),
            None => Seq::empty(),
        };
        let ghost initrd_seg: Seq<Seq<char>> = match &k.disk.initrd {
            Some(initrd) => seq!["-initrd"@, initrd@],
            None => Seq::empty(),
        };
        let ghost kvm_seg: Seq<Seq<char>> = if k.kvm {
            seq!["-enable-kvm"@]
        } else {
            Seq::empty()
        };
        let ghost debug_seg: Seq<Seq<char>> = if debug {
            seq!["-s"@]
        } else {
            Seq::empty()
        };

        let mut args: Vec<String> = Vec::new();
        match &k.runner_extra_args {
            Some(extra) => {
                let mut i: usize = 0;
                while i < extra.len()
                    invariant
                        i <= extra@.len(),
                        args@.len() == i,
                        forall|j: int| 0 <= j < i ==> args@[j]@ == extra@[j]@,
                    decreases extra@.len() - i,
                {
                    args.push(extra[i].clone());
                    i = i + 1;
                }
            },
            None => {},
        }
        proof {
            assert(views_of(args@) =~~= extra_seg);
        }
        let ghost g0 = args@;
        match &k.disk.initrd {
            Some(initrd) => {
                args.push(String::from_str("-initrd"));
                args.push(initrd.clone());
            },
            None => {},
        }
        proof {
            assert(views_of(args@) =~~= views_of(g0) + initrd_seg);
        }
        let ghost g1 = args@;
        if k.kvm {
            args.push(String::from_str("-enable-kvm"));
        }
        proof {
            assert(views_of(args@) =~~= views_of(g1) + kvm_seg);
        }
        let ghost g2 = args@;
        if debug {
            args.push(String::from_str("-s"));
        }
        proof {
            assert(views_of(args@) =~~= views_of(g2) + debug_seg);
        }
        let ghost g3 = args@;
        args.push(String::from_str("-m"));
        args.push(String::from_str("512M"));
        args.push(String::from_str("-smp"));
        args.push(String::from_str("2"));
        args.push(String::from_str("-kernel"));
        args.push(k.kernel.clone());
        args.push(String::from_str("-append"));
        let bootargs = String::from_str("console=ttyS0 root=").concat(
            k.disk.boot.as_str(),
        ).concat(" earlyprintk=serial net.ifnames=0 nokaslr");
        args.push(bootargs);
        args.push(String::from_str("-drive"));
        let drive = String::from_str("file=").concat(k.disk.path.as_str()).concat(",format=raw");
        args.push(drive);
        args.push(String::from_str("-net"));
        let port_str = crate::strutil::u64_to_string(port as u64);
        let fwd = String::from_str("user,host=10.0.2.10,hostfwd=tcp:127.0.0.1:").concat(
            port_str.as_str(),
        ).concat("-:22");
        args.push(fwd);
        args.push(String::from_str("-net"));
        args.push(String::from_str("nic,model=e1000"));
        args.push(String::from_str("-nographic"));
        args.push(String::from_str("-pidfile"));
        args.push(String::from_str("vm.pid"));
        proof {
            let tail = seq![
                "-m"@,
                "512M"@,
                "-smp"@,
                "2"@,
                "-kernel"@,
                k.kernel@,
                "-append"@,
                spec_bootargs(k.disk.boot@),
                "-drive"@,
                spec_drive_arg(k.disk.path@),
                "-net"@,
                spec_fwd_net(port),
                "-net"@,
                "nic,model=e1000"@,
                "-nographic"@,
                "-pidfile"@,
                "vm.pid"@,
            ];
            assert(views_of(args@) =~~= views_of(g3) + tail);
            assert(views_of(g3) == extra_seg + initrd_seg + kvm_seg + debug_seg);
            assert(views_of(args@) =~~= spec_qemu_args(*k, debug, port));
        }
        Cmd { program: k.runner.clone(), args }
    }

    /// Prepares a launch: allocates the random ephemeral host port (a
    /// collision with a port already bound is a documented, accepted race —
    /// it is not detected or retried) and computes the invocation and the
    /// guest handle that go with it.
    pub fn launch_plan(k: &KConfig, debug: bool, legacy: bool) -> (r: (Qemu, Cmd, u16))
        ensures
            1025 <= r.2,
            r.0.sshkey == k.disk.sshkey,
            r.0.sshport@ == dec_str(r.2 as nat),
            r.0.legacy_ssh == legacy,
            r.1.program@ == k.runner@,
            views_of(r.1.args@) == spec_qemu_args(*k, debug, r.2),
    {
        let port = sample_ephemeral_port();
        let cmd = Self::start_invocation(k, debug, port);
        let q = Qemu {
            sshkey: k.disk.sshkey.clone(),
            sshport: crate::strutil::u64_to_string(port as u64),
            legacy_ssh: legacy,
        };
        (q, cmd, port)
    }

    /// The remote-shell invocation that runs `cmd` inside the guest.
    pub fn runcmd_invocation(&self, cmd: &str) -> (r: Cmd)
        ensures
            r.program@ == "ssh"@,
            views_of(r.args@) == spec_ssh_args(self.sshkey@, self.sshport@, cmd@),
    {
        let mut args: Vec<String> = Vec::new();
        args.push(String::from_str("-i"));
        args.push(self.sshkey.clone());
        args.push(String::from_str("-p"));
        args.push(self.sshport.clone());
        args.push(String::from_str("-oStrictHostKeyChecking=no"));
        args.push(String::from_str("root@localhost"));
        args.push(String::from_str(cmd));
        proof {
            assert(views_of(args@) =~~= spec_ssh_args(self.sshkey@, self.sshport@, cmd@));
        }
        Cmd { program: String::from_str("ssh"), args }
    }

    /// The remote-copy invocation that puts `local` at `remote` inside the
    /// guest, with the legacy-protocol compatibility flag exactly when the
    /// host's client needs it.
    pub fn transfer_invocation(&self, local: &str, remote: &str) -> (r: Cmd)
        ensures
            r.program@ == "scp"@,
            views_of(r.args@) == spec_scp_args(
                self.legacy_ssh,
                self.sshkey@,
                self.sshport@,
                local@,
                remote@,
            ),
    {
        let mut args: Vec<String> = Vec::new();
        if !self.legacy_ssh {
            args.push(String::from_str("-O"));
        }
        args.push(String::from_str("-i"));
        args.push(self.sshkey.clone());
        args.push(String::from_str("-P"));
        args.push(self.sshport.clone());
        args.push(String::from_str("-oStrictHostKeyChecking=no"));
        args.push(String::from_str(local));
        args.push(String::from_str("root@localhost:").concat(remote));
        proof {
            assert(views_of(args@) =~~= spec_scp_args(
                self.legacy_ssh,
                self.sshkey@,
                self.sshport@,
                local@,
                remote@,
            ));
        }
        Cmd { program: String::from_str("scp"), args }
    }

    /// The invocation of an interactive remote shell on the guest.
    pub fn interact_invocation(&self) -> (r: Cmd)
        ensures
            r.program@ == "ssh"@,
            views_of(r.args@) == spec_interact_args(self.sshkey@, self.sshport@),
    {
        let mut args: Vec<String> = Vec::new();
        args.push(String::from_str("-i"));
        args.push(self.sshkey.clone());
        args.push(String::from_str("-p"));
        args.push(self.sshport.clone());
        args.push(String::from_str("-oStrictHostKeyChecking=no"));
        args.push(String::from_str("root@localhost"));
        proof {
            assert(views_of(args@) =~~= spec_interact_args(self.sshkey@, self.sshport@));
        }
        Cmd { program: String::from_str("ssh"), args }
    }
}

/// Classifies a remote command's exit: non-zero is an `SshError`.
pub fn remote_outcome(success: bool) -> (r: Result<(), NixModuleError>)
    ensures
        success ==> r is Ok,
        !success ==> (r matches Err(e) && e == NixModuleError::SshError),
{
    if success {
        Ok(())
    } else {
        Err(NixModuleError::SshError)
    }
}

// ---------------------------------------------------------------------------
// Boot readiness
// ---------------------------------------------------------------------------

/// The sleep between boot-readiness probes when the caller has no reason to
/// choose another, in seconds.
pub const DEFAULT_BOOT_BACKOFF_SECS: u64 = 7;

/// The two phases of boot readiness: an open TCP port does not yet mean the
/// remote-shell service accepts sessions, so a successful connection is
/// followed by waiting for a successful read of the service banner.
#[derive(Clone, Copy, Debug, PartialEq, Eq, Structural)]
pub enum BootPhase {
    /// Waiting for the forwarded port to accept a connection.
    Network,
    /// Waiting for the service banner to be readable.
    Service,
}

/// What the caller must do after one probe.
#[derive(Clone, Copy, Debug, PartialEq, Eq, Structural)]
pub enum BootDecision {
    /// The service answered: the guest is ready.
    Ready,
    /// The port opened: probe the service next, without sleeping.
    Advance,
    /// Probe again after one backoff interval.
    Retry,
    /// No room for another attempt before the deadline.
    TimedOut,
}

/// The polling discipline of boot readiness: which phase we are in, the
/// overall deadline, and the fixed sleep between attempts (all in seconds).
pub struct BootWaiter {
    pub phase: BootPhase,
    pub timeout: u64,
    pub backoff: u64,
}

impl BootWaiter {
    /// What one probe outcome at `elapsed` seconds does to the waiter.
    pub open spec fn spec_step(self, ok: bool, elapsed: u64) -> (BootWaiter, BootDecision) {
        if ok {
            match self.phase {
                BootPhase::Network => (
                    BootWaiter { phase: BootPhase::Service, ..self },
                    BootDecision::Advance,
                ),
                BootPhase::Service => (self, BootDecision::Ready),
            }
        } else if elapsed + self.backoff > self.timeout {
            (self, BootDecision::TimedOut)
        } else {
            (self, BootDecision::Retry)
        }
    }

    /// A fresh waiter in the network phase.
    pub fn new(timeout: u64, backoff: u64) -> (w: BootWaiter)
        ensures
            w.phase == BootPhase::Network,
            w.timeout == timeout,
            w.backoff == backoff,
    {
        BootWaiter { phase: BootPhase::Network, timeout, backoff }
    }

    /// Feeds one probe outcome (`ok`: did the connect, or in the service
    /// phase the read, succeed?) observed `elapsed` seconds in.
    pub fn step(&mut self, ok: bool, elapsed: u64) -> (d: BootDecision)
        ensures
            *final(self) == old(self).spec_step(ok, elapsed).0,
            d == old(self).spec_step(ok, elapsed).1,
    {
        if ok {
            match self.phase {
                BootPhase::Network => {
                    self.phase = BootPhase::Service;
                    BootDecision::Advance
                },
                BootPhase::Service => BootDecision::Ready,
            }
        } else if elapsed > self.timeout || self.backoff > self.timeout - elapsed {
            BootDecision::TimedOut
        } else {
            BootDecision::Retry
        }
    }
}

/// The least multiple of `b` at or above `t`: the first probe instant at
/// which a condition true from `t` on can be observed, probing every `b`
/// seconds from 0.
pub open spec fn next_attempt(t: nat, b: nat) -> int
    recommends
        b >= 1,
{
    ((t + b - 1) / (b as int)) * (b as int)
}

proof fn lemma_next_attempt(t: nat, b: nat)
    requires
        b >= 1,
    ensures
        next_attempt(t, b) % (b as int) == 0,
        next_attempt(t, b) >= t,
        next_attempt(t, b) < t + b,
{
    let bi = b as int;
    let q = (t + b - 1) / bi;
    assert((t + b - 1) == q * bi + ((t + b - 1) % bi) && 0 <= (t + b - 1) % bi < bi)
        by (nonlinear_arith)
        requires
            bi >= 1,
            q == (t + b - 1) / bi,
    ;
    assert((q * bi) % bi == 0) by (nonlinear_arith)
        requires
            bi >= 1,
    ;
    assert(q * bi >= t && q * bi < t + b);
}

proof fn lemma_attempt_minimal(t: nat, b: nat, m: nat)
    requires
        b >= 1,
        (m as int) % (b as int) == 0,
        m >= t,
    ensures
        m >= next_attempt(t, b),
{
    let bi = b as int;
    let q = (t + b - 1) / bi;
    let k = (m as int) / bi;
    assert(m == k * bi) by (nonlinear_arith)
        requires
            bi >= 1,
            (m as int) % bi == 0,
            k == (m as int) / bi,
    ;
    lemma_next_attempt(t, b);
    if m < next_attempt(t, b) {
        assert(k < q) by (nonlinear_arith)
            requires
                bi >= 1,
                k * bi < q * bi,
        ;
        assert(k * bi <= (q - 1) * bi) by (nonlinear_arith)
            requires
                bi >= 1,
                k < q,
        ;
        assert((q - 1) * bi == q * bi - bi) by (nonlinear_arith);
        assert(q * bi < t + b);
        assert(m < t);
    }
}

proof fn lemma_attempt_above(t: nat, b: nat, m: nat)
    requires
        b >= 1,
        (m as int) % (b as int) == 0,
        m < t,
    ensures
        next_attempt(t, b) >= m + b,
{
    let bi = b as int;
    let k = (m as int) / bi;
    let n = next_attempt(t, b);
    assert(m == k * bi) by (nonlinear_arith)
        requires
            bi >= 1,
            (m as int) % bi == 0,
            k == (m as int) / bi,
    ;
    lemma_next_attempt(t, b);
    let j = n / bi;
    assert(n == j * bi) by (nonlinear_arith)
        requires
            bi >= 1,
            n % bi == 0,
            j == n / bi,
    ;
    assert(j * bi > k * bi);
    assert(j > k) by (nonlinear_arith)
        requires
            bi >= 1,
            j * bi > k * bi,
    ;
    assert(j * bi >= (k + 1) * bi) by (nonlinear_arith)
        requires
            bi >= 1,
            j >= k + 1,
    ;
    assert((k + 1) * bi == k * bi + bi) by (nonlinear_arith);
}

/// Runs the boot-readiness discipline against a guest whose port opens at
/// `t1` and whose service banner becomes readable at `t2 >= t1` (seconds),
/// probing every `backoff` seconds from 0 under the overall `timeout`.
///
/// Readiness is never reported before `t2` — the two-phase check cannot be
/// satisfied by the open port alone — and a banner that cannot be observed
/// by the deadline is a `TimeoutError`; in particular `t2 > timeout` always
/// is.
pub fn wait_for_boot(t1: u64, t2: u64, timeout: u64, backoff: u64) -> (r: Result<
    u64,
    NixModuleError,
>)
    requires
        1 <= backoff,
        t1 <= t2,
    ensures
        r is Ok <==> next_attempt(t2 as nat, backoff as nat) <= timeout,
        r matches Ok(t) ==> t == next_attempt(t2 as nat, backoff as nat) && t >= t2,
        r matches Err(e) ==> e == NixModuleError::TimeoutError,
        t2 > timeout ==> (r matches Err(e) && e == NixModuleError::TimeoutError),
{
    let mut w = BootWaiter::new(timeout, backoff);
    let mut clock: u64 = 0;
    proof {
        lemma_next_attempt(t2 as nat, backoff as nat);
    }
    loop
        invariant
            w.timeout == timeout,
            w.backoff == backoff,
            1 <= backoff,
            t1 <= t2,
            clock <= timeout,
            clock as int % (backoff as int) == 0,
            clock <= next_attempt(t2 as nat, backoff as nat),
            w.phase == BootPhase::Service ==> clock >= t1,
        decreases timeout - clock, (if w.phase == BootPhase::Network {
            1int
        } else {
            0int
        }),
    {
        let ok = match w.phase {
            BootPhase::Network => clock >= t1,
            BootPhase::Service => clock >= t2,
        };
        let ghost pre = w;
        let d = w.step(ok, clock);
        match d {
            BootDecision::Ready => {
                proof {
                    lemma_attempt_minimal(t2 as nat, backoff as nat, clock as nat);
                }
                return Ok(clock);
            },
            BootDecision::TimedOut => {
                proof {
                    if pre.phase == BootPhase::Network {
                        lemma_attempt_above(t2 as nat, backoff as nat, clock as nat);
                    } else {
                        lemma_attempt_above(t2 as nat, backoff as nat, clock as nat);
                    }
                }
                return Err(NixModuleError::TimeoutError);
            },
            BootDecision::Advance => {
            },
            BootDecision::Retry => {
                proof {
                    if pre.phase == BootPhase::Network {
                        assert(clock < t1);
                        lemma_attempt_above(t2 as nat, backoff as nat, clock as nat);
                    } else {
                        assert(clock < t2);
                        lemma_attempt_above(t2 as nat, backoff as nat, clock as nat);
                    }
                    assert((clock as int + backoff as int) % (backoff as int) == 0)
                        by (nonlinear_arith)
                        requires
                            backoff >= 1,
                            clock as int % (backoff as int) == 0,
                    ;
                }
                clock = clock + backoff;
            },
        }
    }
}

} // verus!
