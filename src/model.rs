//! The dump's objects, and how a JSON entry is read as one of them.
//!
//! An entry is tried against the known shapes in a fixed order: Metadata,
//! then Node, then Device. The first shape it fits decides; an entry that
//! fits none is kept as `Unknown`. Members that a shape does not name are
//! ignored.
use crate::json::{
    get, get_bool, get_bool_exec, get_exec, get_int, get_int_exec, get_str, get_str_exec, get_volume,
    get_volume_exec, get_volumes, get_volumes_exec, int_of, Json,
};
use vstd::prelude::*;

verus! {

/// One `(key, value)` entry of a Metadata object. `name` is the value's
/// `name` where the value is an object with a text `name`.
#[derive(Debug)]
pub struct MetadataEntry {
    pub key: String,
    pub name: Option<String>,
}

#[derive(Debug)]
pub struct MetadataObject {
    pub typ: String,
    pub entries: Vec<MetadataEntry>,
}

/// A property's valid range, in volume units.
#[derive(Debug)]
pub struct VolumeRange {
    pub id: String,
    pub default: i64,
    pub min: i64,
    pub max: i64,
}

#[derive(Debug)]
pub enum PropInfo {
    Volume(VolumeRange),
    Other,
}

/// A node's volume state, in volume units.
#[derive(Debug)]
pub struct VolumeState {
    pub volume: i64,
    pub mute: bool,
    pub channel_volumes: Vec<i64>,
}

#[derive(Debug)]
pub enum NodeProp {
    Volume(VolumeState),
    Other,
}

#[derive(Debug)]
pub struct NodeObject {
    pub id: i64,
    pub typ: String,
    pub name: String,
    pub device_id: Option<i64>,
    pub card_profile_device: Option<i64>,
    /// The channel count of each `EnumFormat` entry, where it has one.
    pub channels: Vec<Option<i64>>,
    pub prop_info: Vec<PropInfo>,
    pub props: Vec<NodeProp>,
}

/// A device's route, with its volume state in volume units.
#[derive(Debug)]
pub struct Route {
    pub index: i64,
    pub direction: String,
    pub mute: bool,
    pub volume_base: i64,
    pub channel_volumes: Vec<i64>,
}

#[derive(Debug)]
pub struct DeviceObject {
    pub id: i64,
    pub typ: String,
    pub routes: Vec<Route>,
}

#[derive(Debug)]
pub enum DumpObject {
    Metadata(MetadataObject),
    Node(NodeObject),
    Device(DeviceObject),
    Unknown(Json),
}

pub open spec fn items_of(j: Option<Json>) -> Option<Seq<Json>> {
    match j {
        Some(Json::Array(items)) => Some(items@),
        _ => None,
    }
}

/// `j`'s member `a`, then that one's member `b`.
pub open spec fn path(j: Json, a: Seq<char>, b: Seq<char>) -> Option<Json> {
    match get(j, a) {
        Some(x) => get(x, b),
        None => None,
    }
}

/// An optional integer member: absent or `null` gives `Some(None)`.
pub open spec fn opt_int_of(j: Json, key: Seq<char>) -> Option<Option<i64>> {
    match get(j, key) {
        None => Some(None),
        Some(Json::Null) => Some(None),
        Some(x) => match int_of(x) {
            Some(i) => Some(Some(i)),
            None => None,
        },
    }
}

pub open spec fn opt_view(s: Option<String>) -> Option<Seq<char>> {
    match s {
        Some(x) => Some(x@),
        None => None,
    }
}

pub open spec fn is_object(j: Json) -> bool {
    j is Object
}

// ---- Metadata ----
pub open spec fn entry_ok(j: Json) -> bool {
    get_str(j, "key"@) is Some && get(j, "value"@) is Some
}

pub open spec fn entry_decodes(j: Json, e: MetadataEntry) -> bool {
    &&& entry_ok(j)
    &&& get_str(j, "key"@) == Some(e.key@)
    &&& opt_view(e.name) == get_str(get(j, "value"@)->0, "name"@)
}

pub open spec fn metadata_ok(j: Json) -> bool {
    &&& get_str(j, "type"@) is Some
    &&& items_of(get(j, "metadata"@)) is Some
    &&& forall|i: int|
        0 <= i < items_of(get(j, "metadata"@))->0.len() ==> #[trigger] entry_ok(
            items_of(get(j, "metadata"@))->0[i],
        )
}

pub open spec fn metadata_decodes(j: Json, m: MetadataObject) -> bool {
    let items = items_of(get(j, "metadata"@))->0;
    &&& metadata_ok(j)
    &&& get_str(j, "type"@) == Some(m.typ@)
    &&& items.len() == m.entries@.len()
    &&& forall|i: int| 0 <= i < items.len() ==> #[trigger] entry_decodes(items[i], m.entries@[i])
}

// ---- Node ----
pub open spec fn range_ok(j: Json) -> bool {
    &&& get_str(j, "id"@) is Some
    &&& get(j, "type"@) is Some
    &&& get_volume(get(j, "type"@)->0, "default"@) is Some
    &&& get_volume(get(j, "type"@)->0, "min"@) is Some
    &&& get_volume(get(j, "type"@)->0, "max"@) is Some
}

pub open spec fn range_decodes(j: Json, r: VolumeRange) -> bool {
    let t = get(j, "type"@)->0;
    &&& range_ok(j)
    &&& get_str(j, "id"@) == Some(r.id@)
    &&& get_volume(t, "default"@) == Some(r.default)
    &&& get_volume(t, "min"@) == Some(r.min)
    &&& get_volume(t, "max"@) == Some(r.max)
}

pub open spec fn prop_info_decodes(j: Json, p: PropInfo) -> bool {
    if range_ok(j) {
        p matches PropInfo::Volume(r) && range_decodes(j, r)
    } else {
        p is Other
    }
}

pub open spec fn state_ok(j: Json) -> bool {
    &&& get_volume(j, "volume"@) is Some
    &&& get_bool(j, "mute"@) is Some
    &&& get_volumes(j, "channelVolumes"@) is Some
}

pub open spec fn state_decodes(j: Json, s: VolumeState) -> bool {
    &&& state_ok(j)
    &&& get_volume(j, "volume"@) == Some(s.volume)
    &&& get_bool(j, "mute"@) == Some(s.mute)
    &&& get_volumes(j, "channelVolumes"@) == Some(s.channel_volumes@)
}

pub open spec fn node_prop_decodes(j: Json, p: NodeProp) -> bool {
    if state_ok(j) {
        p matches NodeProp::Volume(s) && state_decodes(j, s)
    } else {
        p is Other
    }
}

pub open spec fn format_ok(j: Json) -> bool {
    is_object(j) && opt_int_of(j, "channels"@) is Some
}

pub open spec fn node_props(j: Json) -> Json {
    path(j, "info"@, "props"@)->0
}

pub open spec fn node_params(j: Json) -> Json {
    path(j, "info"@, "params"@)->0
}

pub open spec fn format_items(j: Json) -> Seq<Json> {
    items_of(get(node_params(j), "EnumFormat"@))->0
}

pub open spec fn prop_infos(j: Json) -> Seq<Json> {
    items_of(get(node_params(j), "PropInfo"@))->0
}

pub open spec fn prop_states(j: Json) -> Seq<Json> {
    items_of(get(node_params(j), "Props"@))->0
}

pub open spec fn node_ok(j: Json) -> bool {
    &&& get_int(j, "id"@) is Some
    &&& get_str(j, "type"@) is Some
    &&& path(j, "info"@, "props"@) is Some
    &&& get_str(node_props(j), "node.name"@) is Some
    &&& opt_int_of(node_props(j), "device.id"@) is Some
    &&& opt_int_of(node_props(j), "card.profile.device"@) is Some
    &&& path(j, "info"@, "params"@) is Some
    &&& items_of(get(node_params(j), "EnumFormat"@)) is Some
    &&& forall|i: int| 0 <= i < format_items(j).len() ==> #[trigger] format_ok(format_items(j)[i])
    &&& items_of(get(node_params(j), "PropInfo"@)) is Some
    &&& items_of(get(node_params(j), "Props"@)) is Some
}

pub open spec fn node_decodes(j: Json, n: NodeObject) -> bool {
    &&& node_ok(j)
    &&& get_int(j, "id"@) == Some(n.id)
    &&& get_str(j, "type"@) == Some(n.typ@)
    &&& get_str(node_props(j), "node.name"@) == Some(n.name@)
    &&& opt_int_of(node_props(j), "device.id"@) == Some(n.device_id)
    &&& opt_int_of(node_props(j), "card.profile.device"@) == Some(n.card_profile_device)
    &&& n.channels@.len() == format_items(j).len()
    &&& forall|i: int|
        0 <= i < format_items(j).len() ==> opt_int_of(#[trigger] format_items(j)[i], "channels"@) == Some(
            n.channels@[i],
        )
    &&& n.prop_info@.len() == prop_infos(j).len()
    &&& forall|i: int|
        0 <= i < prop_infos(j).len() ==> #[trigger] prop_info_decodes(
            prop_infos(j)[i],
            n.prop_info@[i],
        )
    &&& n.props@.len() == prop_states(j).len()
    &&& forall|i: int|
        0 <= i < prop_states(j).len() ==> #[trigger] node_prop_decodes(
            prop_states(j)[i],
            n.props@[i],
        )
}

// ---- Device ----
pub open spec fn route_ok(j: Json) -> bool {
    &&& get_int(j, "index"@) is Some
    &&& get_str(j, "direction"@) is Some
    &&& get(j, "props"@) is Some
    &&& state_props_ok(get(j, "props"@)->0)
}

pub open spec fn state_props_ok(p: Json) -> bool {
    &&& get_bool(p, "mute"@) is Some
    &&& get_volume(p, "volumeBase"@) is Some
    &&& get_volumes(p, "channelVolumes"@) is Some
}

pub open spec fn route_decodes(j: Json, r: Route) -> bool {
    let p = get(j, "props"@)->0;
    &&& route_ok(j)
    &&& get_int(j, "index"@) == Some(r.index)
    &&& get_str(j, "direction"@) == Some(r.direction@)
    &&& get_bool(p, "mute"@) == Some(r.mute)
    &&& get_volume(p, "volumeBase"@) == Some(r.volume_base)
    &&& get_volumes(p, "channelVolumes"@) == Some(r.channel_volumes@)
}

pub open spec fn route_items(j: Json) -> Seq<Json> {
    items_of(get(path(j, "info"@, "params"@)->0, "Route"@))->0
}

pub open spec fn device_ok(j: Json) -> bool {
    &&& get_int(j, "id"@) is Some
    &&& get_str(j, "type"@) is Some
    &&& path(j, "info"@, "params"@) is Some
    &&& items_of(get(path(j, "info"@, "params"@)->0, "Route"@)) is Some
    &&& forall|i: int| 0 <= i < route_items(j).len() ==> #[trigger] route_ok(route_items(j)[i])
}

pub open spec fn device_decodes(j: Json, d: DeviceObject) -> bool {
    &&& device_ok(j)
    &&& get_int(j, "id"@) == Some(d.id)
    &&& get_str(j, "type"@) == Some(d.typ@)
    &&& d.routes@.len() == route_items(j).len()
    &&& forall|i: int|
        0 <= i < route_items(j).len() ==> #[trigger] route_decodes(route_items(j)[i], d.routes@[i])
}

/// How an entry of the dump is read: the first of Metadata, Node and Device
/// whose shape it fits, else `Unknown`.
pub open spec fn object_decodes(j: Json, o: DumpObject) -> bool {
    if metadata_ok(j) {
        o matches DumpObject::Metadata(m) && metadata_decodes(j, m)
    } else if node_ok(j) {
        o matches DumpObject::Node(n) && node_decodes(j, n)
    } else if device_ok(j) {
        o matches DumpObject::Device(d) && device_decodes(j, d)
    } else {
        o == DumpObject::Unknown(j)
    }
}

/// How a whole dump is read: one object per entry, in order.
pub open spec fn dump_decodes(items: Seq<Json>, objs: Seq<DumpObject>) -> bool {
    &&& items.len() == objs.len()
    &&& forall|i: int| 0 <= i < items.len() ==> #[trigger] object_decodes(items[i], objs[i])
}

fn items_exec<'a>(j: &'a Json, key: &str) -> (r: Option<&'a Vec<Json>>)
    ensures
        r matches Some(v) ==> items_of(get(*j, key@)) == Some(v@),
        r is None ==> items_of(get(*j, key@)) is None,
{
    match get_exec(j, key) {
        Some(Json::Array(items)) => Some(items),
        _ => None,
    }
}

fn opt_int_exec(j: &Json, key: &str) -> (r: Option<Option<i64>>)
    ensures
        r == opt_int_of(*j, key@),
{
    match get_exec(j, key) {
        None => Some(None),
        Some(Json::Null) => Some(None),
        Some(Json::Number { integer: Some(i), .. }) => Some(Some(*i)),
        _ => None,
    }
}

fn decode_entry(j: &Json) -> (r: Option<MetadataEntry>)
    ensures
        r is Some <==> entry_ok(*j),
        r matches Some(e) ==> entry_decodes(*j, e),
{
    let key = match get_str_exec(j, "key") {
        Some(k) => k,
        None => return None,
    };
    match get_exec(j, "value") {
        Some(v) => Some(MetadataEntry { key, name: get_str_exec(v, "name") }),
        None => None,
    }
}

/// Reads `j` as a Metadata object, where it has that shape.
pub fn decode_metadata(j: &Json) -> (r: Option<MetadataObject>)
    ensures
        r is Some <==> metadata_ok(*j),
        r matches Some(m) ==> metadata_decodes(*j, m),
{
    let typ = match get_str_exec(j, "type") {
        Some(t) => t,
        None => return None,
    };
    let items = match items_exec(j, "metadata") {
        Some(items) => items,
        None => return None,
    };
    let mut entries: Vec<MetadataEntry> = Vec::new();
    let mut i: usize = 0;
    while i < items.len()
        invariant
            items_of(get(*j, "metadata"@)) == Some(items@),
            i <= items@.len(),
            entries@.len() == i,
            forall|k: int| 0 <= k < i ==> #[trigger] entry_decodes(items@[k], entries@[k]),
        decreases items.len() - i,
    {
        match decode_entry(&items[i]) {
            Some(e) => entries.push(e),
            None => {
                let ghost all = items_of(get(*j, "metadata"@))->0;
                assert(all[i as int] == items@[i as int]);
                assert(!entry_ok(all[i as int]));
                return None;
            },
        }
        i = i + 1;
    }
    assert forall|k: int| 0 <= k < items@.len() implies #[trigger] entry_ok(items@[k]) by {
        assert(entry_decodes(items@[k], entries@[k]));
    }
    Some(MetadataObject { typ, entries })
}

fn decode_range(j: &Json) -> (r: Option<VolumeRange>)
    ensures
        r is Some <==> range_ok(*j),
        r matches Some(v) ==> range_decodes(*j, v),
{
    let id = match get_str_exec(j, "id") {
        Some(id) => id,
        None => return None,
    };
    let t = match get_exec(j, "type") {
        Some(t) => t,
        None => return None,
    };
    match (get_volume_exec(t, "default"), get_volume_exec(t, "min"), get_volume_exec(t, "max")) {
        (Some(default), Some(min), Some(max)) => Some(VolumeRange { id, default, min, max }),
        _ => None,
    }
}

fn decode_state(j: &Json) -> (r: Option<VolumeState>)
    ensures
        r is Some <==> state_ok(*j),
        r matches Some(s) ==> state_decodes(*j, s),
{
    match (get_volume_exec(j, "volume"), get_bool_exec(j, "mute")) {
        (Some(volume), Some(mute)) => match get_volumes_exec(j, "channelVolumes") {
            Some(channel_volumes) => Some(VolumeState { volume, mute, channel_volumes }),
            None => None,
        },
        _ => None,
    }
}

fn decode_prop_info(j: &Json) -> (r: PropInfo)
    ensures
        prop_info_decodes(*j, r),
{
    match decode_range(j) {
        Some(v) => PropInfo::Volume(v),
        None => PropInfo::Other,
    }
}

fn decode_node_prop(j: &Json) -> (r: NodeProp)
    ensures
        node_prop_decodes(*j, r),
{
    match decode_state(j) {
        Some(s) => NodeProp::Volume(s),
        None => NodeProp::Other,
    }
}

/// Reads `j` as a Node object, where it has that shape.
pub fn decode_node(j: &Json) -> (r: Option<NodeObject>)
    ensures
        r is Some <==> node_ok(*j),
        r matches Some(n) ==> node_decodes(*j, n),
{
    let id = match get_int_exec(j, "id") {
        Some(id) => id,
        None => return None,
    };
    let typ = match get_str_exec(j, "type") {
        Some(t) => t,
        None => return None,
    };
    let info = match get_exec(j, "info") {
        Some(info) => info,
        None => return None,
    };
    let props = match get_exec(info, "props") {
        Some(p) => p,
        None => return None,
    };
    let name = match get_str_exec(props, "node.name") {
        Some(n) => n,
        None => return None,
    };
    let device_id = match opt_int_exec(props, "device.id") {
        Some(d) => d,
        None => return None,
    };
    let card_profile_device = match opt_int_exec(props, "card.profile.device") {
        Some(d) => d,
        None => return None,
    };
    let params = match get_exec(info, "params") {
        Some(p) => p,
        None => return None,
    };
    let formats = match items_exec(params, "EnumFormat") {
        Some(f) => f,
        None => return None,
    };
    let infos = match items_exec(params, "PropInfo") {
        Some(f) => f,
        None => return None,
    };
    let states = match items_exec(params, "Props") {
        Some(f) => f,
        None => return None,
    };
    let mut channels: Vec<Option<i64>> = Vec::new();
    let mut i: usize = 0;
    while i < formats.len()
        invariant
            formats@ == format_items(*j),
            i <= formats@.len(),
            channels@.len() == i,
            forall|k: int|
                0 <= k < i ==> opt_int_of(#[trigger] formats@[k], "channels"@) == Some(channels@[k]),
            forall|k: int| 0 <= k < i ==> #[trigger] format_ok(formats@[k]),
        decreases formats.len() - i,
    {
        let f = &formats[i];
        if !matches!(f, Json::Object(_)) {
            assert(!format_ok(formats@[i as int]));
            return None;
        }
        match opt_int_exec(f, "channels") {
            Some(c) => channels.push(c),
            None => {
                assert(!format_ok(formats@[i as int]));
                return None;
            },
        }
        i = i + 1;
    }
    let mut prop_info: Vec<PropInfo> = Vec::new();
    let mut i: usize = 0;
    while i < infos.len()
        invariant
            infos@ == prop_infos(*j),
            i <= infos@.len(),
            prop_info@.len() == i,
            forall|k: int| 0 <= k < i ==> #[trigger] prop_info_decodes(infos@[k], prop_info@[k]),
        decreases infos.len() - i,
    {
        prop_info.push(decode_prop_info(&infos[i]));
        i = i + 1;
    }
    let mut node_props: Vec<NodeProp> = Vec::new();
    let mut i: usize = 0;
    while i < states.len()
        invariant
            states@ == prop_states(*j),
            i <= states@.len(),
            node_props@.len() == i,
            forall|k: int| 0 <= k < i ==> #[trigger] node_prop_decodes(states@[k], node_props@[k]),
        decreases states.len() - i,
    {
        node_props.push(decode_node_prop(&states[i]));
        i = i + 1;
    }
    Some(
        NodeObject {
            id,
            typ,
            name,
            device_id,
            card_profile_device,
            channels,
            prop_info,
            props: node_props,
        },
    )
}

fn decode_route(j: &Json) -> (r: Option<Route>)
    ensures
        r is Some <==> route_ok(*j),
        r matches Some(x) ==> route_decodes(*j, x),
{
    let index = match get_int_exec(j, "index") {
        Some(i) => i,
        None => return None,
    };
    let direction = match get_str_exec(j, "direction") {
        Some(d) => d,
        None => return None,
    };
    let p = match get_exec(j, "props") {
        Some(p) => p,
        None => return None,
    };
    match (get_bool_exec(p, "mute"), get_volume_exec(p, "volumeBase")) {
        (Some(mute), Some(volume_base)) => match get_volumes_exec(p, "channelVolumes") {
            Some(channel_volumes) => Some(
                Route { index, direction, mute, volume_base, channel_volumes },
            ),
            None => None,
        },
        _ => None,
    }
}

/// Reads `j` as a Device object, where it has that shape.
pub fn decode_device(j: &Json) -> (r: Option<DeviceObject>)
    ensures
        r is Some <==> device_ok(*j),
        r matches Some(d) ==> device_decodes(*j, d),
{
    let id = match get_int_exec(j, "id") {
        Some(id) => id,
        None => return None,
    };
    let typ = match get_str_exec(j, "type") {
        Some(t) => t,
        None => return None,
    };
    let info = match get_exec(j, "info") {
        Some(info) => info,
        None => return None,
    };
    let params = match get_exec(info, "params") {
        Some(p) => p,
        None => return None,
    };
    let items = match items_exec(params, "Route") {
        Some(r) => r,
        None => return None,
    };
    let mut routes: Vec<Route> = Vec::new();
    let mut i: usize = 0;
    while i < items.len()
        invariant
            items@ == route_items(*j),
            i <= items@.len(),
            routes@.len() == i,
            forall|k: int| 0 <= k < i ==> #[trigger] route_decodes(items@[k], routes@[k]),
        decreases items.len() - i,
    {
        match decode_route(&items[i]) {
            Some(r) => routes.push(r),
            None => {
                assert(!route_ok(items@[i as int]));
                assert(!device_ok(*j));
                return None;
            },
        }
        i = i + 1;
    }
    assert forall|k: int| 0 <= k < items@.len() implies #[trigger] route_ok(items@[k]) by {
        assert(route_decodes(items@[k], routes@[k]));
    }
    Some(DeviceObject { id, typ, routes })
}

/// Reads one entry of the dump: the first of Metadata, Node and Device whose
/// shape it fits, else `Unknown` holding the entry itself.
pub fn decode_object(j: Json) -> (r: DumpObject)
    ensures
        object_decodes(j, r),
{
    if let Some(m) = decode_metadata(&j) {
        return DumpObject::Metadata(m);
    }
    if let Some(n) = decode_node(&j) {
        return DumpObject::Node(n);
    }
    if let Some(d) = decode_device(&j) {
        return DumpObject::Device(d);
    }
    DumpObject::Unknown(j)
}

/// Reads a dump: a JSON array, one object per entry, in order. `None` where
/// `j` is no array.
pub fn decode_dump(j: Json) -> (r: Option<Vec<DumpObject>>)
    ensures
        j matches Json::Array(items) ==> r matches Some(objs) && dump_decodes(items@, objs@),
        !(j is Array) ==> r is None,
{
    match j {
        Json::Array(mut items) => {
            let ghost all = items@;
            let mut objs: Vec<DumpObject> = Vec::new();
            while items.len() > 0
                invariant
                    objs@.len() + items@.len() == all.len(),
                    items@ == all.subrange(objs@.len() as int, all.len() as int),
                    forall|k: int| 0 <= k < objs@.len() ==> #[trigger] object_decodes(all[k], objs@[k]),
                decreases items.len(),
            {
                let x = items.remove(0);
                assert(x == all[objs@.len() as int]);
                objs.push(decode_object(x));
                assert(items@ =~= all.subrange(objs@.len() as int, all.len() as int));
            }
            Some(objs)
        },
        _ => None,
    }
}

} // verus!
