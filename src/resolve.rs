//! Finding the default sink's volume state in a decoded dump.
//!
//! The default sink's name comes from the first Metadata object that holds
//! a `default.audio.sink` entry with a name. The first Node of that name is
//! the sink. A node that names both its device (`device.id`) and its
//! profile device (`card.profile.device`) is reached through that device's
//! first `Output` route; any other node carries its volume in its own
//! properties. Every search takes the first match in input order.
use crate::json::text_eq;
use crate::model::{opt_view, DumpObject, MetadataEntry, NodeProp, PropInfo, Route};
use vstd::prelude::*;

verus! {

/// The first index of `s` whose element meets `p`.
#[verifier::opaque]
pub open spec fn first_where<A>(s: Seq<A>, p: spec_fn(A) -> bool) -> Option<int> {
    if exists|i: int| 0 <= i < s.len() && p(s[i]) {
        Some(
            choose|i: int|
                0 <= i < s.len() && p(s[i]) && forall|j: int| 0 <= j < i ==> !p(#[trigger] s[j]),
        )
    } else {
        None
    }
}

pub proof fn lemma_first_where<A>(s: Seq<A>, p: spec_fn(A) -> bool, i: int)
    requires
        0 <= i < s.len(),
        p(s[i]),
        forall|j: int| 0 <= j < i ==> !p(#[trigger] s[j]),
    ensures
        first_where(s, p) == Some(i),
{
    reveal(first_where);
    let c = choose|c: int|
        0 <= c < s.len() && p(s[c]) && forall|j: int| 0 <= j < c ==> !p(#[trigger] s[j]);
    assert(0 <= c < s.len() && p(s[c]) && forall|j: int| 0 <= j < c ==> !p(#[trigger] s[j]));
    if c < i {
        assert(!p(s[c]));
    } else if c > i {
        assert(!p(s[i]));
    }
}

pub proof fn lemma_first_none<A>(s: Seq<A>, p: spec_fn(A) -> bool)
    requires
        forall|j: int| 0 <= j < s.len() ==> !p(#[trigger] s[j]),
    ensures
        first_where(s, p) is None,
{
    reveal(first_where);
}

pub open spec fn is_sink_entry(e: MetadataEntry) -> bool {
    e.key@ == "default.audio.sink"@ && e.name is Some
}

pub open spec fn has_sink(o: DumpObject) -> bool {
    &&& o matches DumpObject::Metadata(m)
    &&& m.typ@ == "PipeWire:Interface:Metadata"@
    &&& exists|k: int| 0 <= k < m.entries@.len() && is_sink_entry(#[trigger] m.entries@[k])
}

/// The default sink's name: the name of the first `default.audio.sink`
/// entry of the first Metadata object that has one.
pub open spec fn default_sink(objs: Seq<DumpObject>) -> Option<Seq<char>> {
    match first_where(objs, sink_holder()) {
        Some(i) => {
            let entries = objs[i]->Metadata_0.entries@;
            let k = first_where(entries, sink_entry())->0;
            Some(entries[k].name->0@)
        },
        None => None,
    }
}

pub open spec fn node_named(o: DumpObject, name: Seq<char>) -> bool {
    o matches DumpObject::Node(n) && n.typ@ == "PipeWire:Interface:Node"@ && n.name@ == name
}

pub open spec fn device_with(o: DumpObject, id: i64) -> bool {
    o matches DumpObject::Device(d) && d.typ@ == "PipeWire:Interface:Device"@ && d.id == id
}

pub open spec fn is_output(r: Route) -> bool {
    r.direction@ == "Output"@
}

pub open spec fn is_volume_info(p: PropInfo) -> bool {
    p matches PropInfo::Volume(v) && v.id@ == "volume"@
}

pub open spec fn is_volume_state(p: NodeProp) -> bool {
    p is Volume
}

pub open spec fn sink_holder() -> spec_fn(DumpObject) -> bool {
    |o: DumpObject| has_sink(o)
}

pub open spec fn sink_entry() -> spec_fn(MetadataEntry) -> bool {
    |e: MetadataEntry| is_sink_entry(e)
}

pub open spec fn named(name: Seq<char>) -> spec_fn(DumpObject) -> bool {
    |o: DumpObject| node_named(o, name)
}

pub open spec fn device_of(id: i64) -> spec_fn(DumpObject) -> bool {
    |o: DumpObject| device_with(o, id)
}

pub open spec fn output() -> spec_fn(Route) -> bool {
    |r: Route| is_output(r)
}

pub open spec fn volume_info() -> spec_fn(PropInfo) -> bool {
    |p: PropInfo| is_volume_info(p)
}

pub open spec fn volume_state() -> spec_fn(NodeProp) -> bool {
    |p: NodeProp| is_volume_state(p)
}

/// What resolution finds: indices into the dump, or the failure.
pub ghost enum Resolution {
    /// The node, its device, and the route within the device.
    Route { node: int, device: int, route: int },
    /// The node, its volume range among its `PropInfo`, and its volume
    /// state among its `Props`.
    Node { node: int, info: int, state: int },
    SinkMissing,
    NodeMissing(Seq<char>),
    DeviceMissing(i64),
    NoOutputRoute,
    NoChannels,
    RangeMissing(i64),
    BadRange(i64, i64),
    StateMissing(i64),
}

/// Resolution through a device's route, for node `ni` whose device is `did`.
pub open spec fn route_resolution(objs: Seq<DumpObject>, ni: int, did: i64) -> Resolution {
    match first_where(objs, device_of(did)) {
        None => Resolution::DeviceMissing(did),
        Some(di) => {
            let routes = objs[di]->Device_0.routes@;
            match first_where(routes, output()) {
                None => Resolution::NoOutputRoute,
                Some(ri) => if routes[ri].channel_volumes@.len() == 0 {
                    Resolution::NoChannels
                } else {
                    Resolution::Route { node: ni, device: di, route: ri }
                },
            }
        },
    }
}

/// Resolution through node `ni`'s own properties.
pub open spec fn prop_resolution(objs: Seq<DumpObject>, ni: int) -> Resolution {
    let n = objs[ni]->Node_0;
    match first_where(n.prop_info@, volume_info()) {
        None => Resolution::RangeMissing(n.id),
        Some(pi) => {
            let r = n.prop_info@[pi]->Volume_0;
            if r.max - r.min <= 0 {
                Resolution::BadRange(r.min, r.max)
            } else {
                match first_where(n.props@, volume_state()) {
                    None => Resolution::StateMissing(n.id),
                    Some(si) => Resolution::Node { node: ni, info: pi, state: si },
                }
            }
        },
    }
}

/// Resolution from the sink's node `ni`: through its device where the node
/// names one and its profile device, else through its own properties.
pub open spec fn node_resolution(objs: Seq<DumpObject>, ni: int) -> Resolution {
    let n = objs[ni]->Node_0;
    if n.device_id is Some && n.card_profile_device is Some {
        route_resolution(objs, ni, n.device_id->0)
    } else {
        prop_resolution(objs, ni)
    }
}

pub open spec fn resolution(objs: Seq<DumpObject>) -> Resolution {
    match default_sink(objs) {
        None => Resolution::SinkMissing,
        Some(name) => match first_where(objs, named(name)) {
            None => Resolution::NodeMissing(name),
            Some(ni) => node_resolution(objs, ni),
        },
    }
}

/// The volume state that resolution found, with what addresses it.
#[derive(Debug)]
pub enum Target {
    /// A device's route: `device` is the device's id, `card_device` the
    /// node's profile device, `index` the route's index.
    Route { device: i64, card_device: i64, index: i64, mute: bool, channel_volumes: Vec<i64> },
    /// A node's own volume property, with its valid range.
    Node { node: i64, min: i64, max: i64, volume: i64, mute: bool },
}

#[derive(Debug)]
pub enum ResolveError {
    DefaultSinkNotFound,
    NodeNotFound(String),
    DeviceNotFound(i64),
    OutputRouteNotFound,
    NoVolumeChannels,
    VolumeRangeNotFound(i64),
    InvalidVolumeRange(i64, i64),
    VolumeStateNotFound(i64),
}

/// `r` is what `res` describes in `objs`.
pub open spec fn resolved_as(objs: Seq<DumpObject>, res: Resolution, r: Result<Target, ResolveError>) -> bool {
    match res {
        Resolution::Route { node, device, route } => {
            let n = objs[node]->Node_0;
            let d = objs[device]->Device_0;
            let rt = d.routes@[route];
            r matches Ok(Target::Route { device: dev, card_device, index, mute, channel_volumes })
                && dev == n.device_id->0 && card_device == n.card_profile_device->0 && index
                == rt.index && mute == rt.mute && channel_volumes@ == rt.channel_volumes@
        },
        Resolution::Node { node, info, state } => {
            let n = objs[node]->Node_0;
            let ri = n.prop_info@[info]->Volume_0;
            let st = n.props@[state]->Volume_0;
            r matches Ok(Target::Node { node: id, min, max, volume, mute }) && id == n.id && min
                == ri.min && max == ri.max && volume == st.volume && mute == st.mute
        },
        Resolution::SinkMissing => r matches Err(ResolveError::DefaultSinkNotFound),
        Resolution::NodeMissing(name) => r matches Err(ResolveError::NodeNotFound(s)) && s@ == name,
        Resolution::DeviceMissing(id) => r == Err::<Target, _>(ResolveError::DeviceNotFound(id)),
        Resolution::NoOutputRoute => r matches Err(ResolveError::OutputRouteNotFound),
        Resolution::NoChannels => r matches Err(ResolveError::NoVolumeChannels),
        Resolution::RangeMissing(id) => r == Err::<Target, _>(ResolveError::VolumeRangeNotFound(id)),
        Resolution::BadRange(min, max) => r == Err::<Target, _>(
            ResolveError::InvalidVolumeRange(min, max),
        ),
        Resolution::StateMissing(id) => r == Err::<Target, _>(ResolveError::VolumeStateNotFound(id)),
    }
}

fn find_sink_entry(entries: &Vec<MetadataEntry>) -> (r: Option<usize>)
    ensures
        r matches Some(k) ==> k < entries@.len() && is_sink_entry(entries@[k as int]) && first_where(
            entries@,
            sink_entry(),
        ) == Some(k as int),
        r is None ==> forall|k: int| 0 <= k < entries@.len() ==> !is_sink_entry(#[trigger] entries@[k]),
{
    let mut k: usize = 0;
    while k < entries.len()
        invariant
            k <= entries@.len(),
            forall|j: int| 0 <= j < k ==> !is_sink_entry(#[trigger] entries@[j]),
        decreases entries.len() - k,
    {
        let e = &entries[k];
        if text_eq(e.key.as_str(), "default.audio.sink") && e.name.is_some() {
            proof {
                assert(forall|j: int| 0 <= j < k ==> !sink_entry()(#[trigger] entries@[j]));
                lemma_first_where(entries@, sink_entry(), k as int);
            }
            return Some(k);
        }
        k = k + 1;
    }
    None
}

/// The default sink's name.
pub fn find_default_sink(objs: &Vec<DumpObject>) -> (r: Option<String>)
    ensures
        opt_view(r) == default_sink(objs@),
{
    let mut i: usize = 0;
    while i < objs.len()
        invariant
            i <= objs@.len(),
            forall|j: int| 0 <= j < i ==> !has_sink(#[trigger] objs@[j]),
        decreases objs.len() - i,
    {
        if let DumpObject::Metadata(m) = &objs[i] {
            if text_eq(m.typ.as_str(), "PipeWire:Interface:Metadata") {
                match find_sink_entry(&m.entries) {
                    Some(k) => {
                        proof {
                            assert(is_sink_entry(m.entries@[k as int]));
                            assert(has_sink(objs@[i as int]));
                            assert(forall|j: int| 0 <= j < i ==> !sink_holder()(#[trigger] objs@[j]));
                            lemma_first_where(objs@, sink_holder(), i as int);
                        }
                        match &m.entries[k].name {
                            Some(name) => return Some(name.clone()),
                            None => {},
                        }
                    },
                    None => {},
                }
            }
        }
        i = i + 1;
    }
    proof {
        assert(forall|j: int| 0 <= j < objs@.len() ==> !sink_holder()(#[trigger] objs@[j]));
        lemma_first_none(objs@, sink_holder());
    }
    None
}

fn find_node(objs: &Vec<DumpObject>, name: &String) -> (r: Option<usize>)
    ensures
        r matches Some(i) ==> i < objs@.len() && node_named(objs@[i as int], name@) && first_where(
            objs@,
            named(name@),
        ) == Some(i as int),
        r is None ==> first_where(objs@, named(name@)) is None,
{
    let mut i: usize = 0;
    while i < objs.len()
        invariant
            i <= objs@.len(),
            forall|j: int| 0 <= j < i ==> !node_named(#[trigger] objs@[j], name@),
        decreases objs.len() - i,
    {
        if let DumpObject::Node(n) = &objs[i] {
            if text_eq(n.typ.as_str(), "PipeWire:Interface:Node") && text_eq(
                n.name.as_str(),
                name.as_str(),
            ) {
                proof {
                    assert(forall|j: int| 0 <= j < i ==> !named(name@)(#[trigger] objs@[j]));
                    lemma_first_where(objs@, named(name@), i as int);
                }
                return Some(i);
            }
        }
        i = i + 1;
    }
    proof {
        assert(forall|j: int| 0 <= j < objs@.len() ==> !named(name@)(#[trigger] objs@[j]));
        lemma_first_none(objs@, named(name@));
    }
    None
}

fn find_device(objs: &Vec<DumpObject>, id: i64) -> (r: Option<usize>)
    ensures
        r matches Some(i) ==> i < objs@.len() && device_with(objs@[i as int], id) && first_where(
            objs@,
            device_of(id),
        ) == Some(i as int),
        r is None ==> first_where(objs@, device_of(id)) is None,
{
    let mut i: usize = 0;
    while i < objs.len()
        invariant
            i <= objs@.len(),
            forall|j: int| 0 <= j < i ==> !device_with(#[trigger] objs@[j], id),
        decreases objs.len() - i,
    {
        if let DumpObject::Device(d) = &objs[i] {
            if text_eq(d.typ.as_str(), "PipeWire:Interface:Device") && d.id == id {
                proof {
                    assert(forall|j: int| 0 <= j < i ==> !device_of(id)(#[trigger] objs@[j]));
                    lemma_first_where(objs@, device_of(id), i as int);
                }
                return Some(i);
            }
        }
        i = i + 1;
    }
    proof {
        assert(forall|j: int| 0 <= j < objs@.len() ==> !device_of(id)(#[trigger] objs@[j]));
        lemma_first_none(objs@, device_of(id));
    }
    None
}

fn find_output(routes: &Vec<Route>) -> (r: Option<usize>)
    ensures
        r matches Some(i) ==> i < routes@.len() && is_output(routes@[i as int]) && first_where(
            routes@,
            output(),
        ) == Some(i as int),
        r is None ==> first_where(routes@, output()) is None,
{
    let mut i: usize = 0;
    while i < routes.len()
        invariant
            i <= routes@.len(),
            forall|j: int| 0 <= j < i ==> !is_output(#[trigger] routes@[j]),
        decreases routes.len() - i,
    {
        if text_eq(routes[i].direction.as_str(), "Output") {
            proof {
                assert(forall|j: int| 0 <= j < i ==> !output()(#[trigger] routes@[j]));
                lemma_first_where(routes@, output(), i as int);
            }
            return Some(i);
        }
        i = i + 1;
    }
    proof {
        assert(forall|j: int| 0 <= j < routes@.len() ==> !output()(#[trigger] routes@[j]));
        lemma_first_none(routes@, output());
    }
    None
}

fn find_volume_info(infos: &Vec<PropInfo>) -> (r: Option<usize>)
    ensures
        r matches Some(i) ==> i < infos@.len() && is_volume_info(infos@[i as int]) && first_where(
            infos@,
            volume_info(),
        ) == Some(i as int),
        r is None ==> first_where(infos@, volume_info()) is None,
{
    let mut i: usize = 0;
    while i < infos.len()
        invariant
            i <= infos@.len(),
            forall|j: int| 0 <= j < i ==> !is_volume_info(#[trigger] infos@[j]),
        decreases infos.len() - i,
    {
        if let PropInfo::Volume(v) = &infos[i] {
            if text_eq(v.id.as_str(), "volume") {
                proof {
                    assert(forall|j: int| 0 <= j < i ==> !volume_info()(#[trigger] infos@[j]));
                    lemma_first_where(infos@, volume_info(), i as int);
                }
                return Some(i);
            }
        }
        i = i + 1;
    }
    proof {
        assert(forall|j: int| 0 <= j < infos@.len() ==> !volume_info()(#[trigger] infos@[j]));
        lemma_first_none(infos@, volume_info());
    }
    None
}

fn find_volume_state(props: &Vec<NodeProp>) -> (r: Option<usize>)
    ensures
        r matches Some(i) ==> i < props@.len() && is_volume_state(props@[i as int]) && first_where(
            props@,
            volume_state(),
        ) == Some(i as int),
        r is None ==> first_where(props@, volume_state()) is None,
{
    let mut i: usize = 0;
    while i < props.len()
        invariant
            i <= props@.len(),
            forall|j: int| 0 <= j < i ==> !is_volume_state(#[trigger] props@[j]),
        decreases props.len() - i,
    {
        if let NodeProp::Volume(_) = &props[i] {
            proof {
                assert(forall|j: int| 0 <= j < i ==> !volume_state()(#[trigger] props@[j]));
                lemma_first_where(props@, volume_state(), i as int);
            }
            return Some(i);
        }
        i = i + 1;
    }
    proof {
        assert(forall|j: int| 0 <= j < props@.len() ==> !volume_state()(#[trigger] props@[j]));
        lemma_first_none(props@, volume_state());
    }
    None
}

/// A copy of `v`.
pub fn copy_volumes(v: &Vec<i64>) -> (r: Vec<i64>)
    ensures
        r@ == v@,
{
    let mut r: Vec<i64> = Vec::new();
    let mut i: usize = 0;
    while i < v.len()
        invariant
            i <= v@.len(),
            r@ == v@.subrange(0, i as int),
        decreases v.len() - i,
    {
        r.push(v[i]);
        proof {
            assert(v@.subrange(0, i + 1) =~= v@.subrange(0, i as int).push(v@[i as int]));
        }
        i = i + 1;
    }
    assert(v@.subrange(0, v@.len() as int) =~= v@);
    r
}

fn resolve_route(objs: &Vec<DumpObject>, ni: usize, did: i64, card: i64) -> (r: Result<
    Target,
    ResolveError,
>)
    requires
        ni < objs@.len(),
        objs@[ni as int] matches DumpObject::Node(n) && n.device_id == Some(did)
            && n.card_profile_device == Some(card),
    ensures
        resolved_as(objs@, route_resolution(objs@, ni as int, did), r),
{
    let di = match find_device(objs, did) {
        Some(i) => i,
        None => return Err(ResolveError::DeviceNotFound(did)),
    };
    let d = match &objs[di] {
        DumpObject::Device(d) => d,
        _ => {
            proof {
                assert(false);
            }
            return Err(ResolveError::DeviceNotFound(did));
        },
    };
    let ri = match find_output(&d.routes) {
        Some(i) => i,
        None => return Err(ResolveError::OutputRouteNotFound),
    };
    let rt = &d.routes[ri];
    if rt.channel_volumes.len() == 0 {
        return Err(ResolveError::NoVolumeChannels);
    }
    Ok(
        Target::Route {
            device: did,
            card_device: card,
            index: rt.index,
            mute: rt.mute,
            channel_volumes: copy_volumes(&rt.channel_volumes),
        },
    )
}

fn resolve_props(objs: &Vec<DumpObject>, ni: usize) -> (r: Result<Target, ResolveError>)
    requires
        ni < objs@.len(),
        objs@[ni as int] is Node,
    ensures
        resolved_as(objs@, prop_resolution(objs@, ni as int), r),
{
    let n = match &objs[ni] {
        DumpObject::Node(n) => n,
        _ => {
            proof {
                assert(false);
            }
            return Err(ResolveError::DefaultSinkNotFound);
        },
    };
    let pi = match find_volume_info(&n.prop_info) {
        Some(i) => i,
        None => return Err(ResolveError::VolumeRangeNotFound(n.id)),
    };
    let range = match &n.prop_info[pi] {
        PropInfo::Volume(v) => v,
        _ => {
            proof {
                assert(false);
            }
            return Err(ResolveError::VolumeRangeNotFound(n.id));
        },
    };
    if range.max <= range.min {
        return Err(ResolveError::InvalidVolumeRange(range.min, range.max));
    }
    let si = match find_volume_state(&n.props) {
        Some(i) => i,
        None => return Err(ResolveError::VolumeStateNotFound(n.id)),
    };
    match &n.props[si] {
        NodeProp::Volume(st) => Ok(
            Target::Node {
                node: n.id,
                min: range.min,
                max: range.max,
                volume: st.volume,
                mute: st.mute,
            },
        ),
        _ => {
            proof {
                assert(false);
            }
            Err(ResolveError::VolumeStateNotFound(n.id))
        },
    }
}

/// Finds the default sink's volume state in a decoded dump, or says what
/// was missing.
pub fn resolve(objs: &Vec<DumpObject>) -> (r: Result<Target, ResolveError>)
    ensures
        resolved_as(objs@, resolution(objs@), r),
{
    let name = match find_default_sink(objs) {
        Some(n) => n,
        None => return Err(ResolveError::DefaultSinkNotFound),
    };
    let ni = match find_node(objs, &name) {
        Some(i) => i,
        None => return Err(ResolveError::NodeNotFound(name)),
    };
    let ids = match &objs[ni] {
        DumpObject::Node(n) => (n.device_id, n.card_profile_device),
        _ => {
            proof {
                assert(false);
            }
            return Err(ResolveError::DefaultSinkNotFound);
        },
    };
    match ids {
        (Some(did), Some(card)) => resolve_route(objs, ni, did, card),
        _ => resolve_props(objs, ni),
    }
}

} // verus!
