//! Properties of resolution and of the volume arithmetic.
use crate::command::{is_mute_command, target_muted, Command, Transition};
use crate::fixed::ONE;
use crate::command::{Action, Request};
use crate::model::DumpObject;
use crate::resolve::ResolveError;
use crate::{run_outcome, Failure};
use crate::resolve::{
    device_of, first_where, has_sink, is_output, is_sink_entry, is_volume_info, is_volume_state,
    lemma_first_none, lemma_first_where, named, node_named, output, resolution, sink_entry,
    sink_holder, volume_info, volume_state, device_with, Resolution, Target,
};
use crate::volume::{moved_channels, moved_volume, range_increment};
use vstd::prelude::*;

verus! {

/// Every Metadata entry keyed `default.audio.sink` in `objs` is entry `k`
/// of object `mi`, which is a Metadata object of the metadata type whose
/// entry `k` carries a name.
pub open spec fn only_sink_entry(objs: Seq<DumpObject>, mi: int, k: int) -> bool {
    &&& 0 <= mi < objs.len()
    &&& objs[mi] matches DumpObject::Metadata(m) && m.typ@ == "PipeWire:Interface:Metadata"@ && 0
        <= k < m.entries@.len() && is_sink_entry(m.entries@[k])
    &&& forall|i: int, e: int|
        #![trigger objs[i], objs[i]->Metadata_0.entries@[e]]
        0 <= i < objs.len() && objs[i] is Metadata && 0 <= e < objs[i]->Metadata_0.entries@.len()
            && objs[i]->Metadata_0.entries@[e].key@ == "default.audio.sink"@ ==> i == mi && e == k
}

/// The default sink's name where only entry `k` of object `mi` names it.
pub open spec fn sink_name_at(objs: Seq<DumpObject>, mi: int, k: int) -> Seq<char> {
    objs[mi]->Metadata_0.entries@[k].name->0@
}

proof fn lemma_default_sink_at(objs: Seq<DumpObject>, mi: int, k: int)
    requires
        only_sink_entry(objs, mi, k),
    ensures
        crate::resolve::default_sink(objs) == Some(sink_name_at(objs, mi, k)),
{
    let m = objs[mi]->Metadata_0;
    assert(has_sink(objs[mi]));
    assert forall|j: int| 0 <= j < mi implies !sink_holder()(#[trigger] objs[j]) by {
        if has_sink(objs[j]) {
            let e = choose|e: int|
                0 <= e < objs[j]->Metadata_0.entries@.len() && is_sink_entry(
                    #[trigger] objs[j]->Metadata_0.entries@[e],
                );
            assert(objs[j]->Metadata_0.entries@[e].key@ == "default.audio.sink"@);
        }
    }
    lemma_first_where(objs, sink_holder(), mi);
    assert forall|e: int| 0 <= e < k implies !sink_entry()(#[trigger] m.entries@[e]) by {
        if is_sink_entry(m.entries@[e]) {
            assert(objs[mi]->Metadata_0.entries@[e].key@ == "default.audio.sink"@);
        }
    }
    lemma_first_where(m.entries@, sink_entry(), k);
}

/// Node `ni` is the only node of the metadata's sink name.
pub open spec fn only_node(objs: Seq<DumpObject>, ni: int, name: Seq<char>) -> bool {
    &&& 0 <= ni < objs.len()
    &&& node_named(objs[ni], name)
    &&& forall|i: int| 0 <= i < objs.len() && #[trigger] node_named(objs[i], name) ==> i == ni
}

proof fn lemma_node_at(objs: Seq<DumpObject>, ni: int, name: Seq<char>)
    requires
        only_node(objs, ni, name),
    ensures
        first_where(objs, named(name)) == Some(ni),
{
    assert forall|j: int| 0 <= j < ni implies !named(name)(#[trigger] objs[j]) by {
        if node_named(objs[j], name) {
            assert(j == ni);
        }
    }
    lemma_first_where(objs, named(name), ni);
}

/// Where the dump holds exactly one `default.audio.sink` entry, its name
/// belongs to exactly one node, that node names its device and profile
/// device, exactly one device has that id, and that device has exactly one
/// `Output` route, which has channels: resolution finds that node, device
/// and route.
pub proof fn lemma_resolves_route(objs: Seq<DumpObject>, mi: int, k: int, ni: int, di: int, ri: int)
    requires
        only_sink_entry(objs, mi, k),
        only_node(objs, ni, sink_name_at(objs, mi, k)),
        objs[ni]->Node_0.device_id is Some,
        objs[ni]->Node_0.card_profile_device is Some,
        0 <= di < objs.len(),
        device_with(objs[di], objs[ni]->Node_0.device_id->0),
        forall|i: int|
            0 <= i < objs.len() && #[trigger] device_with(objs[i], objs[ni]->Node_0.device_id->0)
                ==> i == di,
        0 <= ri < objs[di]->Device_0.routes@.len(),
        is_output(objs[di]->Device_0.routes@[ri]),
        forall|i: int|
            0 <= i < objs[di]->Device_0.routes@.len() && #[trigger] is_output(
                objs[di]->Device_0.routes@[i],
            ) ==> i == ri,
        objs[di]->Device_0.routes@[ri].channel_volumes@.len() > 0,
    ensures
        resolution(objs) == (Resolution::Route { node: ni, device: di, route: ri }),
{
    lemma_default_sink_at(objs, mi, k);
    lemma_node_at(objs, ni, sink_name_at(objs, mi, k));
    let did = objs[ni]->Node_0.device_id->0;
    assert forall|j: int| 0 <= j < di implies !device_of(did)(#[trigger] objs[j]) by {
        if device_with(objs[j], did) {
            assert(j == di);
        }
    }
    lemma_first_where(objs, device_of(did), di);
    let routes = objs[di]->Device_0.routes@;
    assert forall|j: int| 0 <= j < ri implies !output()(#[trigger] routes[j]) by {
        if is_output(routes[j]) {
            assert(j == ri);
        }
    }
    lemma_first_where(routes, output(), ri);
}

/// Where the dump holds exactly one `default.audio.sink` entry, its name
/// belongs to exactly one node, that node does not name both a device and
/// a profile device, it has exactly one `volume` range, that range is not
/// empty, and it has exactly one volume state: resolution finds that node,
/// range and state.
pub proof fn lemma_resolves_node(objs: Seq<DumpObject>, mi: int, k: int, ni: int, pi: int, si: int)
    requires
        only_sink_entry(objs, mi, k),
        only_node(objs, ni, sink_name_at(objs, mi, k)),
        !(objs[ni]->Node_0.device_id is Some && objs[ni]->Node_0.card_profile_device is Some),
        0 <= pi < objs[ni]->Node_0.prop_info@.len(),
        is_volume_info(objs[ni]->Node_0.prop_info@[pi]),
        forall|i: int|
            0 <= i < objs[ni]->Node_0.prop_info@.len() && #[trigger] is_volume_info(
                objs[ni]->Node_0.prop_info@[i],
            ) ==> i == pi,
        objs[ni]->Node_0.prop_info@[pi]->Volume_0.min < objs[ni]->Node_0.prop_info@[pi]->Volume_0.max,
        0 <= si < objs[ni]->Node_0.props@.len(),
        is_volume_state(objs[ni]->Node_0.props@[si]),
        forall|i: int|
            0 <= i < objs[ni]->Node_0.props@.len() && #[trigger] is_volume_state(
                objs[ni]->Node_0.props@[i],
            ) ==> i == si,
    ensures
        resolution(objs) == (Resolution::Node { node: ni, info: pi, state: si }),
{
    lemma_default_sink_at(objs, mi, k);
    lemma_node_at(objs, ni, sink_name_at(objs, mi, k));
    let n = objs[ni]->Node_0;
    assert forall|j: int| 0 <= j < pi implies !volume_info()(#[trigger] n.prop_info@[j]) by {
        if is_volume_info(n.prop_info@[j]) {
            assert(j == pi);
        }
    }
    lemma_first_where(n.prop_info@, volume_info(), pi);
    assert forall|j: int| 0 <= j < si implies !volume_state()(#[trigger] n.props@[j]) by {
        if is_volume_state(n.props@[j]) {
            assert(j == si);
        }
    }
    lemma_first_where(n.props@, volume_state(), si);
}

/// Where no Metadata object holds an entry keyed `default.audio.sink`,
/// resolution fails for want of a default sink, and no request on the dump
/// gives a command.
pub proof fn lemma_no_sink_entry(objs: Seq<DumpObject>)
    requires
        forall|i: int, e: int|
            #![trigger objs[i], objs[i]->Metadata_0.entries@[e]]
            0 <= i < objs.len() && objs[i] is Metadata && 0 <= e
                < objs[i]->Metadata_0.entries@.len() ==> objs[i]->Metadata_0.entries@[e].key@
                != "default.audio.sink"@,
    ensures
        resolution(objs) == Resolution::SinkMissing,
        forall|req: Request, r: Result<Action, Failure>|
            #[trigger] run_outcome(objs, req, r) ==> r matches Err(
                Failure::Resolve(ResolveError::DefaultSinkNotFound),
            ),
{
    assert forall|j: int| 0 <= j < objs.len() implies !sink_holder()(#[trigger] objs[j]) by {
        if has_sink(objs[j]) {
            let e = choose|e: int|
                0 <= e < objs[j]->Metadata_0.entries@.len() && is_sink_entry(
                    #[trigger] objs[j]->Metadata_0.entries@[e],
                );
            assert(objs[j]->Metadata_0.entries@[e].key@ != "default.audio.sink"@);
        }
    }
    lemma_first_none(objs, sink_holder());
}

/// A change by zero leaves every channel within `[0, 1]` as it was.
pub proof fn lemma_zero_delta(vols: Seq<i64>)
    requires
        forall|i: int| 0 <= i < vols.len() ==> 0 <= #[trigger] vols[i] <= ONE,
    ensures
        moved_channels(vols, 0) == vols,
{
    assert(moved_channels(vols, 0) =~= vols);
}

/// A change by at least 100% takes every channel within `[0, 1]` to 1, and
/// one by at most -100% takes every channel to 0.
pub proof fn lemma_route_clamps(vols: Seq<i64>, delta: int)
    requires
        forall|i: int| 0 <= i < vols.len() ==> 0 <= #[trigger] vols[i] <= ONE,
    ensures
        delta >= ONE ==> forall|i: int|
            0 <= i < vols.len() ==> #[trigger] moved_channels(vols, delta)[i] == ONE,
        delta <= -ONE ==> forall|i: int|
            0 <= i < vols.len() ==> #[trigger] moved_channels(vols, delta)[i] == 0,
{
}

/// A change by at least 100% takes a node's volume within `[min, max]` to
/// `max`, and one by at most -100% to `min`.
pub proof fn lemma_node_clamps(volume: int, delta: int, min: int, max: int)
    requires
        min < max,
        min <= volume <= max,
    ensures
        delta >= ONE ==> moved_volume(volume, delta, min, max) == max,
        delta <= -ONE ==> moved_volume(volume, delta, min, max) == min,
{
    let range = max - min;
    if delta >= ONE {
        assert(delta * range >= ONE * range) by (nonlinear_arith)
            requires
                delta >= ONE,
                range > 0,
        ;
        assert((delta * range) / (ONE as int) >= range) by (nonlinear_arith)
            requires
                delta * range >= ONE * range,
                range > 0,
        ;
        assert(range_increment(delta, min, max) >= range);
    }
    if delta <= -ONE {
        assert(-(delta * range) >= ONE * range) by (nonlinear_arith)
            requires
                delta <= -ONE,
                range > 0,
        ;
        assert((-(delta * range)) / (ONE as int) >= range) by (nonlinear_arith)
            requires
                -(delta * range) >= ONE * range,
                range > 0,
        ;
        assert(range_increment(delta, min, max) <= -range);
    }
}

pub open spec fn command_mute(c: Command) -> bool {
    match c {
        Command::Route { mute, .. } => mute,
        Command::Node { mute, .. } => mute,
    }
}

/// Toggling twice restores the mute flag: where a target resolved after the
/// first toggle's command holds that command's flag, the second toggle's
/// command holds the flag the first target started with.
pub proof fn lemma_toggle_twice(t1: Target, c1: Command, t2: Target, c2: Command)
    requires
        is_mute_command(t1, Transition::Toggle, c1),
        target_muted(t2) == command_mute(c1),
        is_mute_command(t2, Transition::Toggle, c2),
    ensures
        command_mute(c2) == target_muted(t1),
{
}

} // verus!
