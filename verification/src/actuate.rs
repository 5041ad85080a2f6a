use vstd::prelude::*;

verus! {

/// A fan header the controller drives on every board: the CPU fan and the
/// system-intake fan.
#[derive(Clone, Copy, Debug, PartialEq, Eq, Structural)]
pub enum Channel {
    Cpu,
    Intake,
}

/// One duty-cycle write: device `device` in the discovered set, header
/// `channel`, duty in hundredths of a percent.
#[derive(Clone, Copy, Debug, PartialEq, Eq, Structural)]
pub struct FanCommand {
    pub device: usize,
    pub channel: Channel,
    pub duty: u16,
}

/// The write sequence one application of `duty` issues: for each device in
/// order, the CPU header then the intake header. It is a function of the duty
/// and the device count alone.
pub open spec fn plan_spec(n_devices: nat, duty: u16) -> Seq<FanCommand> {
    Seq::new(
        2 * n_devices,
        |k: int|
            (FanCommand {
                device: (k / 2) as usize,
                channel: if k % 2 == 0 {
                    Channel::Cpu
                } else {
                    Channel::Intake
                },
                duty,
            }),
    )
}

/// The wire name of a fan header on the controller board.
pub fn channel_token(c: Channel) -> (r: &'static str)
    ensures
        c is Cpu ==> r@ == "CPUF"@,
        c is Intake ==> r@ == "INTF"@,
{
    match c {
        Channel::Cpu => "CPUF",
        Channel::Intake => "INTF",
    }
}

/// Lays out the duty-cycle writes for one actuation: every monitored header
/// on every discovered device, in device order. The transport performs them
/// in sequence and stops at the first failure; the next cycle re-applies the
/// full target anyway, so a partial application is left as it stands.
#[verifier::loop_isolation(false)]
pub fn actuation_commands(n_devices: usize, duty: u16) -> (r: Vec<FanCommand>)
    requires
        n_devices <= usize::MAX / 2,
    ensures
        r@ == plan_spec(n_devices as nat, duty),
{
    let mut r: Vec<FanCommand> = Vec::new();
    let mut d: usize = 0;
    proof {
        assert(r@ =~= plan_spec(0, duty));
    }
    while d < n_devices
        invariant
            0 <= d <= n_devices,
            r@ == plan_spec(d as nat, duty),
        decreases n_devices - d,
    {
        r.push(FanCommand { device: d, channel: Channel::Cpu, duty });
        r.push(FanCommand { device: d, channel: Channel::Intake, duty });
        proof {
            assert(r@ =~= plan_spec((d + 1) as nat, duty));
        }
        d = d + 1;
    }
    r
}

/// Idempotence law: the write sequence depends on nothing but the duty and
/// the device count, so applying the same duty twice in a row issues the same
/// sequence both times.
pub proof fn lemma_actuation_idempotent(n1: nat, n2: nat, d1: u16, d2: u16)
    requires
        n1 == n2,
        d1 == d2,
    ensures
        plan_spec(n1, d1) == plan_spec(n2, d2),
{
}

} // verus!
