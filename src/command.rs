//! Building the command or status text for a request on a resolved target.
use crate::fixed::{percent_value, parse_percentage, ONE, VOLUME_PLACES};
use crate::resolve::Target;
use crate::text::{fixed_text, int_text, push_fixed, push_int, push_str, string_of};
use crate::volume::{div_round, move_channels, move_volume, moved_channels, moved_volume};
use vstd::arithmetic::div_mod::{lemma_fundamental_div_mod, lemma_fundamental_div_mod_converse_div};
use vstd::prelude::*;

verus! {

/// A requested change of the mute flag.
#[derive(PartialEq, Eq, Structural, Clone, Copy, Debug)]
pub enum Transition {
    On,
    Off,
    Toggle,
}

pub open spec fn mute_after(t: Transition, muted: bool) -> bool {
    match t {
        Transition::On => true,
        Transition::Off => false,
        Transition::Toggle => !muted,
    }
}

/// The mute flag after `t`, from `muted`.
pub fn apply_transition(t: Transition, muted: bool) -> (r: bool)
    ensures
        r == mute_after(t, muted),
{
    match t {
        Transition::On => true,
        Transition::Off => false,
        Transition::Toggle => !muted,
    }
}

/// The state that a command sets. Volumes are in volume units.
#[derive(Debug)]
pub enum Command {
    /// A route's new state: `device` is the profile device.
    Route { index: i64, device: i64, mute: bool, channel_volumes: Vec<i64> },
    /// A node's new properties; a field that is `None` is left out.
    Node { mute: bool, volume: Option<i64>, channel_volumes: Option<Vec<i64>> },
}

/// A target as resolution gives it: a route has at least one channel, and
/// a node's range is not empty.
pub open spec fn target_wf(t: Target) -> bool {
    match t {
        Target::Route { channel_volumes, .. } => channel_volumes@.len() > 0,
        Target::Node { min, max, .. } => min < max,
    }
}

pub open spec fn target_muted(t: Target) -> bool {
    match t {
        Target::Route { mute, .. } => mute,
        Target::Node { mute, .. } => mute,
    }
}

/// The command for a mute request. A route's command carries no channel
/// volumes, a node's no volume.
pub open spec fn is_mute_command(t: Target, tr: Transition, c: Command) -> bool {
    match t {
        Target::Route { card_device, index, mute, .. } => c matches Command::Route {
            index: ci,
            device,
            mute: cm,
            channel_volumes,
        } && ci == index && device == card_device && cm == mute_after(tr, mute)
            && channel_volumes@.len() == 0,
        Target::Node { mute, .. } => c matches Command::Node { mute: cm, volume, channel_volumes }
            && cm == mute_after(tr, mute) && volume is None && channel_volumes is None,
    }
}

/// The command for a volume change by `delta` (units of `10^-7` percent).
/// A change also unmutes.
pub open spec fn is_change_command(t: Target, delta: int, c: Command) -> bool {
    match t {
        Target::Route { card_device, index, channel_volumes: vols, .. } => c matches Command::Route {
            index: ci,
            device,
            mute,
            channel_volumes,
        } && ci == index && device == card_device && !mute && channel_volumes@ == moved_channels(
            vols@,
            delta,
        ),
        Target::Node { min, max, volume: v, .. } => c matches Command::Node {
            mute,
            volume,
            channel_volumes,
        } && !mute && volume == Some(moved_volume(v as int, delta, min as int, max as int) as i64)
            && channel_volumes is None,
    }
}

/// Builds the command for a mute request.
pub fn mute_command(t: &Target, tr: Transition) -> (c: Command)
    ensures
        is_mute_command(*t, tr, c),
{
    match t {
        Target::Route { card_device, index, mute, .. } => Command::Route {
            index: *index,
            device: *card_device,
            mute: apply_transition(tr, *mute),
            channel_volumes: Vec::new(),
        },
        Target::Node { mute, .. } => Command::Node {
            mute: apply_transition(tr, *mute),
            volume: None,
            channel_volumes: None,
        },
    }
}

/// Builds the command for a volume change by `delta` (units of `10^-7`
/// percent).
pub fn change_command(t: &Target, delta: i64) -> (c: Command)
    requires
        target_wf(*t),
    ensures
        is_change_command(*t, delta as int, c),
{
    match t {
        Target::Route { card_device, index, channel_volumes, .. } => Command::Route {
            index: *index,
            device: *card_device,
            mute: false,
            channel_volumes: move_channels(channel_volumes, delta),
        },
        Target::Node { min, max, volume, .. } => Command::Node {
            mute: false,
            volume: Some(move_volume(*volume, delta, *min, *max)),
            channel_volumes: None,
        },
    }
}

pub open spec fn bool_text(b: bool) -> Seq<char> {
    if b {
        "true"@
    } else {
        "false"@
    }
}

/// Volumes as JSON numbers separated by commas.
pub open spec fn volumes_text(s: Seq<i64>) -> Seq<char>
    decreases s.len(),
{
    if s.len() == 0 {
        seq![]
    } else if s.len() == 1 {
        fixed_text(s[0] as int, VOLUME_PLACES as nat)
    } else {
        volumes_text(s.drop_last()) + seq![','] + fixed_text(s.last() as int, VOLUME_PLACES as nat)
    }
}

/// The JSON text of a route's command.
pub open spec fn route_command_text(index: i64, device: i64, mute: bool, vols: Seq<i64>) -> Seq<char> {
    "{\"index\":"@ + int_text(index as int) + ",\"device\":"@ + int_text(device as int)
        + ",\"props\":{\"mute\":"@ + bool_text(mute) + ",\"channelVolumes\":["@ + volumes_text(vols)
        + "]}}"@
}

/// The JSON text of a node's command; a field that is `None` is left out.
pub open spec fn node_command_text(mute: bool, volume: Option<i64>, vols: Option<Seq<i64>>) -> Seq<
    char,
> {
    "{\"mute\":"@ + bool_text(mute) + (match volume {
        Some(v) => ",\"volume\":"@ + fixed_text(v as int, VOLUME_PLACES as nat),
        None => seq![],
    }) + (match vols {
        Some(cv) => ",\"channelVolumes\":["@ + volumes_text(cv) + "]"@,
        None => seq![],
    }) + "}"@
}

/// The JSON text of a command.
pub open spec fn command_text(c: Command) -> Seq<char> {
    match c {
        Command::Route { index, device, mute, channel_volumes } => route_command_text(
            index,
            device,
            mute,
            channel_volumes@,
        ),
        Command::Node { mute, volume, channel_volumes } => node_command_text(
            mute,
            volume,
            match channel_volumes {
                Some(cv) => Some(cv@),
                None => None,
            },
        ),
    }
}

/// The text of the command for a mute request.
pub open spec fn mute_text(t: Target, tr: Transition) -> Seq<char> {
    match t {
        Target::Route { card_device, index, mute, .. } => route_command_text(
            index,
            card_device,
            mute_after(tr, mute),
            seq![],
        ),
        Target::Node { mute, .. } => node_command_text(mute_after(tr, mute), None, None),
    }
}

/// The text of the command for a change by `delta` (units of `10^-7`
/// percent).
pub open spec fn change_text(t: Target, delta: int) -> Seq<char> {
    match t {
        Target::Route { card_device, index, channel_volumes, .. } => route_command_text(
            index,
            card_device,
            false,
            moved_channels(channel_volumes@, delta),
        ),
        Target::Node { min, max, volume, .. } => node_command_text(
            false,
            Some(moved_volume(volume as int, delta, min as int, max as int) as i64),
            None,
        ),
    }
}

fn push_bool(out: &mut Vec<char>, b: bool)
    ensures
        final(out)@ == old(out)@ + bool_text(b),
{
    if b {
        push_str(out, "true");
    } else {
        push_str(out, "false");
    }
}

fn push_volumes(out: &mut Vec<char>, vols: &Vec<i64>)
    ensures
        final(out)@ == old(out)@ + volumes_text(vols@),
{
    let ghost start = out@;
    let mut i: usize = 0;
    while i < vols.len()
        invariant
            i <= vols@.len(),
            out@ == start + volumes_text(vols@.subrange(0, i as int)),
        decreases vols.len() - i,
    {
        let ghost before = out@;
        if i > 0 {
            out.push(',');
        }
        push_fixed(out, vols[i], VOLUME_PLACES);
        proof {
            let next = vols@.subrange(0, i + 1);
            assert(next.drop_last() =~= vols@.subrange(0, i as int));
            if i == 0 {
                assert(volumes_text(vols@.subrange(0, 0)) =~= seq![]);
            }
            assert(out@ =~= start + volumes_text(next));
        }
        i = i + 1;
    }
    assert(vols@.subrange(0, vols@.len() as int) =~= vols@);
}

/// Writes a command as the JSON text that the control tool takes.
pub fn encode_command(c: &Command) -> (r: String)
    ensures
        r@ == command_text(*c),
{
    let mut out: Vec<char> = Vec::new();
    match c {
        Command::Route { index, device, mute, channel_volumes } => {
            push_str(&mut out, "{\"index\":");
            push_int(&mut out, *index as i128);
            push_str(&mut out, ",\"device\":");
            push_int(&mut out, *device as i128);
            push_str(&mut out, ",\"props\":{\"mute\":");
            push_bool(&mut out, *mute);
            push_str(&mut out, ",\"channelVolumes\":[");
            push_volumes(&mut out, channel_volumes);
            push_str(&mut out, "]}}");
        },
        Command::Node { mute, volume, channel_volumes } => {
            push_str(&mut out, "{\"mute\":");
            push_bool(&mut out, *mute);
            let ghost after_mute = out@;
            match volume {
                Some(v) => {
                    push_str(&mut out, ",\"volume\":");
                    push_fixed(&mut out, *v, VOLUME_PLACES);
                },
                None => {},
            }
            let ghost after_volume = out@;
            match channel_volumes {
                Some(cv) => {
                    push_str(&mut out, ",\"channelVolumes\":[");
                    push_volumes(&mut out, cv);
                    push_str(&mut out, "]");
                },
                None => {},
            }
            push_str(&mut out, "}");
        },
    }
    assert(out@ =~= command_text(*c));
    string_of(&out)
}

/// The volume as a whole percentage of the target's range: the first
/// channel of a route, or a node's volume over `max - min`.
pub open spec fn percentage(t: Target) -> int {
    match t {
        Target::Route { channel_volumes, .. } => div_round(channel_volumes@[0] * 100, ONE as int),
        Target::Node { min, max, volume, .. } => div_round(volume * 100, max - min),
    }
}

/// The status line: a fixed text while muted, else the percentage.
pub open spec fn status_text(t: Target) -> Seq<char> {
    if target_muted(t) {
        "{\"alt\":\"mute\", \"tooltip\":\"muted\"}"@
    } else {
        "{\"percentage\":"@ + int_text(percentage(t)) + ", \"tooltip\":\""@ + int_text(percentage(t))
            + "%\"}"@
    }
}

/// `n / m` rounded down, for a positive `m`.
fn floor_div(n: i128, m: i128) -> (r: i128)
    requires
        m > 0,
        n > i128::MIN,
    ensures
        r == n / m,
{
    if n >= 0 {
        n / m
    } else {
        let x: i128 = -n;
        let q = x / m;
        let rem = x % m;
        proof {
            lemma_fundamental_div_mod(x as int, m as int);
        }
        if rem == 0 {
            proof {
                assert(n == (-q) * m + 0) by (nonlinear_arith)
                    requires
                        x == m * q + rem,
                        rem == 0,
                        n == -x,
                ;
                lemma_fundamental_div_mod_converse_div(n as int, m as int, -q, 0);
            }
            -q
        } else {
            proof {
                assert(n == (-q - 1) * m + (m - rem)) by (nonlinear_arith)
                    requires
                        x == m * q + rem,
                        n == -x,
                ;
                lemma_fundamental_div_mod_converse_div(n as int, m as int, -q - 1, m - rem);
            }
            -q - 1
        }
    }
}

fn percentage_exec(t: &Target) -> (r: i128)
    requires
        target_wf(*t),
    ensures
        r == percentage(*t),
{
    match t {
        Target::Route { channel_volumes, .. } => {
            let a: i128 = channel_volumes[0] as i128 * 100;
            floor_div(2 * a + ONE as i128, 2 * ONE as i128)
        },
        Target::Node { min, max, volume, .. } => {
            let range: i128 = *max as i128 - *min as i128;
            let a: i128 = *volume as i128 * 100;
            floor_div(2 * a + range, 2 * range)
        },
    }
}

/// The status line for a target.
pub fn status(t: &Target) -> (r: String)
    requires
        target_wf(*t),
    ensures
        r@ == status_text(*t),
{
    let mut out: Vec<char> = Vec::new();
    let muted = match t {
        Target::Route { mute, .. } => *mute,
        Target::Node { mute, .. } => *mute,
    };
    if muted {
        push_str(&mut out, "{\"alt\":\"mute\", \"tooltip\":\"muted\"}");
    } else {
        let p = percentage_exec(t);
        push_str(&mut out, "{\"percentage\":");
        push_int(&mut out, p);
        push_str(&mut out, ", \"tooltip\":\"");
        push_int(&mut out, p);
        push_str(&mut out, "%\"}");
    }
    assert(out@ =~= status_text(*t));
    string_of(&out)
}

/// What the user asked for.
#[derive(Debug)]
pub enum Request {
    Mute(Transition),
    /// A percentage delta such as `+1%` or `-0.5%`.
    Change(String),
    Status,
}

/// What to do: print a status line, or hand the control tool a command
/// for the parameter `param` of object `object`.
#[derive(Debug)]
pub enum Action {
    Print(String),
    Send { object: i64, param: String, command: String },
}

/// The object that a target's command addresses: the device of a route,
/// or the node itself.
pub open spec fn target_object(t: Target) -> i64 {
    match t {
        Target::Route { device, .. } => device,
        Target::Node { node, .. } => node,
    }
}

/// The parameter that a target's command sets.
pub open spec fn target_param(t: Target) -> Seq<char> {
    match t {
        Target::Route { .. } => "Route"@,
        Target::Node { .. } => "Props"@,
    }
}

/// `a` sends a command for `t` whose text is `text`.
pub open spec fn sends(t: Target, a: Action, text: Seq<char>) -> bool {
    a matches Action::Send { object, param, command } && object == target_object(t) && param@
        == target_param(t) && command@ == text
}

/// What a request on target `t` gives.
pub open spec fn dispatched(t: Target, req: Request, r: Result<Action, crate::Failure>) -> bool {
    match req {
        Request::Status => r matches Ok(Action::Print(s)) && s@ == status_text(t),
        Request::Mute(tr) => r matches Ok(a) && sends(t, a, mute_text(t, tr)),
        Request::Change(delta) => match percent_value(delta@) {
            None => r matches Err(crate::Failure::InvalidDeltaFormat),
            Some(d) => r matches Ok(a) && sends(t, a, change_text(t, d)),
        },
    }
}

fn send(t: &Target, c: &Command) -> (a: Action)
    ensures
        sends(*t, a, command_text(*c)),
{
    let command = encode_command(c);
    let mut param: Vec<char> = Vec::new();
    match t {
        Target::Route { device, .. } => {
            push_str(&mut param, "Route");
            Action::Send { object: *device, param: string_of(&param), command }
        },
        Target::Node { node, .. } => {
            push_str(&mut param, "Props");
            Action::Send { object: *node, param: string_of(&param), command }
        },
    }
}

/// Carries out a request on a resolved target.
pub fn dispatch(t: &Target, req: Request) -> (r: Result<Action, crate::Failure>)
    requires
        target_wf(*t),
    ensures
        dispatched(*t, req, r),
{
    match req {
        Request::Status => {
            let line = status(t);
            Ok(Action::Print(line))
        },
        Request::Mute(tr) => mute_action(t, tr),
        Request::Change(delta) => change_action(t, &delta),
    }
}

fn mute_action(t: &Target, tr: Transition) -> (r: Result<Action, crate::Failure>)
    ensures
        dispatched(*t, Request::Mute(tr), r),
{
    let c = mute_command(t, tr);
    assert(command_text(c) =~= mute_text(*t, tr));
    Ok(send(t, &c))
}

fn change_action(t: &Target, delta: &String) -> (r: Result<Action, crate::Failure>)
    requires
        target_wf(*t),
    ensures
        dispatched(*t, Request::Change(*delta), r),
{
    match parse_percentage(delta.as_str()) {
        None => Err(crate::Failure::InvalidDeltaFormat),
        Some(d) => {
            let c = change_command(t, d);
            assert(command_text(c) =~= change_text(*t, d as int));
            Ok(send(t, &c))
        },
    }
}

} // verus!
