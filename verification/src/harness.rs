use vstd::prelude::*;
use vstd::string::StringExecFns;
use crate::error::Error;
use crate::switch::{Selection, SwitchStep, SETTLE_MS};
use crate::topology::{Resolution, TopologyCache};

verus! {

/// The steps that enter the bootloader on the selected channel before
/// flashing: power on with reset held, assert boot mode, release reset, and
/// let the bootloader come up.
pub open spec fn flash_plan(current: Selection) -> Seq<SwitchStep> {
    let held = current.powered(true).reset(true);
    seq![
        SwitchStep::Apply(held),
        SwitchStep::Apply(held.boot0(true)),
        SwitchStep::Apply(held.boot0(true).reset(false)),
        SwitchStep::Settle(SETTLE_MS),
    ]
}

/// The steps of a normal boot with USB connected to the host: power off,
/// power on, release reset, enable USB pass-through, with a settle delay
/// between each two.
pub open spec fn run_plan(current: Selection) -> Seq<SwitchStep> {
    let off = current.powered_off();
    seq![
        SwitchStep::Apply(off),
        SwitchStep::Settle(SETTLE_MS),
        SwitchStep::Apply(off.powered(true)),
        SwitchStep::Settle(SETTLE_MS),
        SwitchStep::Apply(off.powered(true).reset(false)),
        SwitchStep::Settle(SETTLE_MS),
        SwitchStep::Apply(off.powered(true).reset(false).usb(true)),
    ]
}

/// The one step that leaves everything powered off and disconnected.
pub open spec fn shutdown_plan(current: Selection) -> Seq<SwitchStep> {
    seq![SwitchStep::Apply(current.powered_off())]
}

/// Decides how to connect the chip `device_id`, given the switch's current
/// selection. Before any scan the answer is to scan. After it, the answer is
/// the first channel that holds the chip, left powered off so that the
/// caller controls the bring-up, or a failure that names the chip.
pub fn select_chip(cache: &TopologyCache, device_id: u16, current: Selection) -> (r: Resolution)
    ensures
        r is Discover <==> cache@.needs_scan(),
        r is Fail <==> cache@.populated && cache@.lacks(device_id),
        r is Fail ==> r == Resolution::Fail(Error::ChipNotFound(device_id)),
        r matches Resolution::Connect(selection) ==> cache@.first_holder(
            device_id,
            selection.channel as int,
        ) && selection == current.powered_off().on_channel(selection.channel),
{
    if !cache.is_populated() {
        return Resolution::Discover;
    }
    match cache.find(device_id) {
        Some(channel) => Resolution::Connect(current.power_off().set_channel(channel)),
        None => Resolution::Fail(Error::ChipNotFound(device_id)),
    }
}

/// The switch steps that boot the selected channel and connect it.
pub fn run_and_connect(current: Selection) -> (plan: Vec<SwitchStep>)
    ensures
        plan@ == run_plan(current),
{
    let off = current.power_off();
    let on = off.set_power_enabled(true);
    let running = on.set_reset(false);
    let mut plan: Vec<SwitchStep> = Vec::new();
    plan.push(SwitchStep::Apply(off));
    plan.push(SwitchStep::Settle(SETTLE_MS));
    plan.push(SwitchStep::Apply(on));
    plan.push(SwitchStep::Settle(SETTLE_MS));
    plan.push(SwitchStep::Apply(running));
    plan.push(SwitchStep::Settle(SETTLE_MS));
    plan.push(SwitchStep::Apply(running.set_usb_enabled(true)));
    assert(plan@ =~= run_plan(current));
    plan
}

/// The switch step that powers everything down.
pub fn shutdown(current: Selection) -> (plan: Vec<SwitchStep>)
    ensures
        plan@ == shutdown_plan(current),
{
    let mut plan: Vec<SwitchStep> = Vec::new();
    plan.push(SwitchStep::Apply(current.power_off()));
    assert(plan@ =~= shutdown_plan(current));
    plan
}

/// What the exit of an external tool means: anything but success is a
/// failure of the operation.
pub fn tool_outcome(success: bool) -> (r: Result<(), Error>)
    ensures
        r is Ok <==> success,
        r is Err ==> r == Err::<(), Error>(Error::ExternalToolFailure),
{
    if success {
        Ok(())
    } else {
        Err(Error::ExternalToolFailure)
    }
}

/// The feature names joined by commas.
pub open spec fn joined(features: Seq<Seq<char>>) -> Seq<char>
    decreases features.len(),
{
    if features.len() == 0 {
        Seq::empty()
    } else if features.len() == 1 {
        features[0]
    } else {
        joined(features.drop_last()) + ","@ + features.last()
    }
}

/// The arguments handed to the build tool to build and flash `example`:
/// the feature list is named only where there are features.
pub open spec fn flash_arguments_of(example: Seq<char>, features: Seq<Seq<char>>) -> Seq<
    Seq<char>,
> {
    let base = seq!["run"@, "--release"@, "--example"@, example];
    if features.len() == 0 {
        base
    } else {
        base + seq!["--features"@, joined(features)]
    }
}

/// Joins the feature names by commas.
pub fn join_features(features: &Vec<String>) -> (list: String)
    ensures
        list@ == joined(Seq::new(features@.len(), |i: int| features@[i]@)),
{
    let ghost names = Seq::new(features@.len(), |i: int| features@[i]@);
    let mut list = String::from_str("");
    proof {
        reveal_strlit("");
        assert(list@ =~= Seq::<char>::empty());
    }
    let mut i: usize = 0;
    while i < features.len()
        invariant
            i <= features.len(),
            names == Seq::new(features@.len(), |i: int| features@[i]@),
            list@ == joined(names.subrange(0, i as int)),
        decreases features.len() - i,
    {
        let ghost before = names.subrange(0, i as int);
        let ghost after = names.subrange(0, i as int + 1);
        proof {
            assert(after.drop_last() =~= before);
            assert(after.last() == features@[i as int]@);
        }
        if i > 0 {
            list.append(",");
        }
        list.append(features[i].as_str());
        proof {
            if i == 0 {
                assert(list@ =~= features@[0]@);
            }
        }
        i += 1;
    }
    proof {
        assert(names.subrange(0, i as int) =~= names);
    }
    list
}

/// The arguments handed to the build tool to build and flash `example`.
pub fn flash_arguments(example: &str, features: &Vec<String>) -> (args: Vec<String>)
    ensures
        Seq::new(args@.len(), |i: int| args@[i]@) == flash_arguments_of(
            example@,
            Seq::new(features@.len(), |i: int| features@[i]@),
        ),
{
    let mut args: Vec<String> = Vec::new();
    args.push(String::from_str("run"));
    args.push(String::from_str("--release"));
    args.push(String::from_str("--example"));
    args.push(String::from_str(example));
    if features.len() > 0 {
        args.push(String::from_str("--features"));
        args.push(join_features(features));
    }
    assert(Seq::new(args@.len(), |i: int| args@[i]@) =~= flash_arguments_of(
        example@,
        Seq::new(features@.len(), |i: int| features@[i]@),
    ));
    args
}

/// What flashing takes: the switch steps that enter the bootloader, then
/// the arguments of the build tool.
pub struct FlashPlan {
    pub steps: Vec<SwitchStep>,
    pub arguments: Vec<String>,
}

/// Plans flashing `example`, built with `features`, onto the selected
/// channel.
pub fn flash_firmware(current: Selection, example: &str, features: &Vec<String>) -> (plan:
    FlashPlan)
    ensures
        plan.steps@ == flash_plan(current),
        Seq::new(plan.arguments@.len(), |i: int| plan.arguments@[i]@) == flash_arguments_of(
            example@,
            Seq::new(features@.len(), |i: int| features@[i]@),
        ),
{
    let held = current.set_power_enabled(true).set_reset(true);
    let mut steps: Vec<SwitchStep> = Vec::new();
    steps.push(SwitchStep::Apply(held));
    steps.push(SwitchStep::Apply(held.set_boot0(true)));
    steps.push(SwitchStep::Apply(held.set_boot0(true).set_reset(false)));
    steps.push(SwitchStep::Settle(SETTLE_MS));
    assert(steps@ =~= flash_plan(current));
    FlashPlan { steps, arguments: flash_arguments(example, features) }
}

} // verus!
