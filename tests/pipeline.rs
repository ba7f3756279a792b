use pw_volume::command::{
    change_command, dispatch, encode_command, mute_command, status, Action, Request, Transition,
};
use pw_volume::json::parse_json;
use pw_volume::model::{decode_dump, DumpObject};
use pw_volume::resolve::{resolve, ResolveError, Target};
use pw_volume::{run, Failure};

const METADATA: &str = r#"{"id":0,"type":"PipeWire:Interface:Metadata","metadata":[
    {"subject":0,"key":"default.audio.sink","type":"Spa:String:JSON","value":{"name":"alsa_output.example"}}]}"#;

fn route_node(name: &str) -> String {
    format!(
        r#"{{"id":40,"type":"PipeWire:Interface:Node","info":{{"props":{{"node.name":"{}","device.id":3,"card.profile.device":3}},"params":{{"EnumFormat":[{{"channels":2}}],"PropInfo":[],"Props":[]}}}}}}"#,
        name
    )
}

fn device(mute: bool, vols: &str) -> String {
    format!(
        r#"{{"id":3,"type":"PipeWire:Interface:Device","info":{{"params":{{"Route":[
            {{"index":1,"direction":"Input","props":{{"mute":false,"volumeBase":1.0,"channelVolumes":[0.9]}}}},
            {{"index":0,"direction":"Output","props":{{"mute":{},"volumeBase":1.0,"channelVolumes":[{}]}}}}]}}}}}}"#,
        mute, vols
    )
}

fn prop_node(min: &str, max: &str, volume: &str, mute: bool) -> String {
    format!(
        r#"{{"id":52,"type":"PipeWire:Interface:Node","info":{{"props":{{"node.name":"alsa_output.example"}},"params":{{"EnumFormat":[{{"channels":2}}],
            "PropInfo":[{{"id":"mute","type":{{"default":false}}}},{{"id":"volume","type":{{"default":1.0,"min":{},"max":{}}}}}],
            "Props":[{{"unrelated":1}},{{"volume":{},"mute":{},"channelVolumes":[1.0,1.0]}}]}}}}}}"#,
        min, max, volume, mute
    )
}

fn dump(parts: &[&str]) -> Vec<u8> {
    format!("[{}]", parts.join(",")).into_bytes()
}

fn route_dump(mute: bool, vols: &str) -> Vec<u8> {
    dump(&[METADATA, &route_node("alsa_output.example"), &device(mute, vols)])
}

fn sent(r: Result<Action, Failure>) -> (i64, String, String) {
    match r {
        Ok(Action::Send { object, param, command }) => (object, param, command),
        other => panic!("expected a command, got {:?}", other),
    }
}

fn printed(r: Result<Action, Failure>) -> String {
    match r {
        Ok(Action::Print(s)) => s,
        other => panic!("expected a status line, got {:?}", other),
    }
}

fn resolve_bytes(bytes: &[u8]) -> Result<Target, ResolveError> {
    let objs = decode_dump(parse_json(bytes).unwrap()).unwrap();
    resolve(&objs)
}

#[test]
fn round_trip_change_through_route() {
    let r = run(&route_dump(false, "0.5, 0.5"), Request::Change("+10%".to_string()));
    let (object, param, command) = sent(r);
    assert_eq!(object, 3);
    assert_eq!(param, "Route");
    assert_eq!(command, r#"{"index":0,"device":3,"props":{"mute":false,"channelVolumes":[0.6,0.6]}}"#);
}

#[test]
fn resolves_route_of_default_sink() {
    match resolve_bytes(&route_dump(true, "0.25, 0.75")).unwrap() {
        Target::Route { device, card_device, index, mute, channel_volumes } => {
            assert_eq!(device, 3);
            assert_eq!(card_device, 3);
            assert_eq!(index, 0);
            assert!(mute);
            assert_eq!(channel_volumes, vec![250_000_000, 750_000_000]);
        }
        other => panic!("unexpected target {:?}", other),
    }
}

#[test]
fn resolves_node_volume_property() {
    let bytes = dump(&[METADATA, &prop_node("0.0", "10.0", "4.2", false)]);
    match resolve_bytes(&bytes).unwrap() {
        Target::Node { node, min, max, volume, mute } => {
            assert_eq!(node, 52);
            assert_eq!(min, 0);
            assert_eq!(max, 10_000_000_000);
            assert_eq!(volume, 4_200_000_000);
            assert!(!mute);
        }
        other => panic!("unexpected target {:?}", other),
    }
}

#[test]
fn missing_default_sink_fails_without_command() {
    let other_meta = r#"{"type":"PipeWire:Interface:Metadata","metadata":[{"key":"default.audio.source","value":{"name":"x"}}]}"#;
    let bytes = dump(&[other_meta, &route_node("alsa_output.example"), &device(false, "0.5")]);
    let r = run(&bytes, Request::Mute(Transition::Toggle));
    assert!(matches!(r, Err(Failure::Resolve(ResolveError::DefaultSinkNotFound))));
}

#[test]
fn sink_entry_without_name_is_ignored() {
    let meta = r#"{"type":"PipeWire:Interface:Metadata","metadata":[{"key":"default.audio.sink","value":"plain"}]}"#;
    let bytes = dump(&[meta, &route_node("alsa_output.example"), &device(false, "0.5")]);
    assert!(matches!(resolve_bytes(&bytes), Err(ResolveError::DefaultSinkNotFound)));
}

#[test]
fn sink_found_in_a_later_metadata_object() {
    let first = r#"{"type":"PipeWire:Interface:Metadata","metadata":[{"key":"log.level","value":2}]}"#;
    let bytes = dump(&[first, &route_node("alsa_output.example"), METADATA, &device(false, "0.5")]);
    assert!(matches!(resolve_bytes(&bytes), Ok(Target::Route { index: 0, .. })));
}

#[test]
fn zero_delta_keeps_channels() {
    let r = run(&route_dump(false, "0.5, 0.25"), Request::Change("+0%".to_string()));
    let (_, _, command) = sent(r);
    assert_eq!(command, r#"{"index":0,"device":3,"props":{"mute":false,"channelVolumes":[0.5,0.25]}}"#);
}

#[test]
fn large_deltas_clamp_route() {
    let (_, _, up) = sent(run(&route_dump(false, "0.3, 0.9"), Request::Change("+1000%".to_string())));
    assert_eq!(up, r#"{"index":0,"device":3,"props":{"mute":false,"channelVolumes":[1.0,1.0]}}"#);
    let (_, _, down) = sent(run(&route_dump(false, "0.3, 0.9"), Request::Change("-1000%".to_string())));
    assert_eq!(down, r#"{"index":0,"device":3,"props":{"mute":false,"channelVolumes":[0.0,0.0]}}"#);
}

#[test]
fn large_deltas_clamp_node() {
    let bytes = dump(&[METADATA, &prop_node("0.0", "10.0", "4.2", false)]);
    let (object, param, up) = sent(run(&bytes, Request::Change("+1000%".to_string())));
    assert_eq!(object, 52);
    assert_eq!(param, "Props");
    assert_eq!(up, r#"{"mute":false,"volume":10.0}"#);
    let (_, _, down) = sent(run(&bytes, Request::Change("-1000%".to_string())));
    assert_eq!(down, r#"{"mute":false,"volume":0.0}"#);
}

#[test]
fn node_change_is_share_of_range() {
    let bytes = dump(&[METADATA, &prop_node("0.0", "10.0", "4.2", true)]);
    let (_, _, command) = sent(run(&bytes, Request::Change("+10%".to_string())));
    assert_eq!(command, r#"{"mute":false,"volume":5.2}"#);
    let (_, _, command) = sent(run(&bytes, Request::Change("-0.5%".to_string())));
    assert_eq!(command, r#"{"mute":false,"volume":4.15}"#);
}

#[test]
fn toggle_twice_restores_mute() {
    let (_, _, first) = sent(run(&route_dump(false, "0.5"), Request::Mute(Transition::Toggle)));
    assert_eq!(first, r#"{"index":0,"device":3,"props":{"mute":true,"channelVolumes":[]}}"#);
    let (_, _, second) = sent(run(&route_dump(true, "0.5"), Request::Mute(Transition::Toggle)));
    assert_eq!(second, r#"{"index":0,"device":3,"props":{"mute":false,"channelVolumes":[]}}"#);
}

#[test]
fn mute_on_and_off() {
    let (_, _, on) = sent(run(&route_dump(false, "0.5"), Request::Mute(Transition::On)));
    assert_eq!(on, r#"{"index":0,"device":3,"props":{"mute":true,"channelVolumes":[]}}"#);
    let bytes = dump(&[METADATA, &prop_node("0.0", "10.0", "4.2", true)]);
    let (_, _, off) = sent(run(&bytes, Request::Mute(Transition::Off)));
    assert_eq!(off, r#"{"mute":false}"#);
}

#[test]
fn status_muted_is_fixed_text() {
    let r = run(&route_dump(true, "0.5"), Request::Status);
    assert_eq!(printed(r), r#"{"alt":"mute", "tooltip":"muted"}"#);
}

#[test]
fn status_unmuted_reports_percentage() {
    let r = run(&route_dump(false, "0.42, 0.42"), Request::Status);
    assert_eq!(printed(r), r#"{"percentage":42, "tooltip":"42%"}"#);
}

#[test]
fn status_rounds_to_nearest() {
    let t = Target::Route {
        device: 1,
        card_device: 1,
        index: 0,
        mute: false,
        channel_volumes: vec![424_900_000],
    };
    assert_eq!(status(&t), r#"{"percentage":42, "tooltip":"42%"}"#);
    let t = Target::Route {
        device: 1,
        card_device: 1,
        index: 0,
        mute: false,
        channel_volumes: vec![425_000_000],
    };
    assert_eq!(status(&t), r#"{"percentage":43, "tooltip":"43%"}"#);
}

#[test]
fn status_of_node_is_share_of_range() {
    let bytes = dump(&[METADATA, &prop_node("0.0", "10.0", "4.2", false)]);
    assert_eq!(printed(run(&bytes, Request::Status)), r#"{"percentage":42, "tooltip":"42%"}"#);
}

#[test]
fn node_not_found_names_sink() {
    let bytes = dump(&[METADATA, &route_node("other"), &device(false, "0.5")]);
    match resolve_bytes(&bytes) {
        Err(ResolveError::NodeNotFound(name)) => assert_eq!(name, "alsa_output.example"),
        other => panic!("unexpected {:?}", other),
    }
}

#[test]
fn device_not_found_names_id() {
    let bytes = dump(&[METADATA, &route_node("alsa_output.example")]);
    assert!(matches!(resolve_bytes(&bytes), Err(ResolveError::DeviceNotFound(3))));
}

#[test]
fn output_route_not_found() {
    let dev = r#"{"id":3,"type":"PipeWire:Interface:Device","info":{"params":{"Route":[
        {"index":1,"direction":"Input","props":{"mute":false,"volumeBase":1.0,"channelVolumes":[0.9]}}]}}}"#;
    let bytes = dump(&[METADATA, &route_node("alsa_output.example"), dev]);
    assert!(matches!(resolve_bytes(&bytes), Err(ResolveError::OutputRouteNotFound)));
}

#[test]
fn route_without_channels() {
    let bytes = route_dump(false, "");
    assert!(matches!(resolve_bytes(&bytes), Err(ResolveError::NoVolumeChannels)));
}

#[test]
fn volume_range_not_found() {
    let node = r#"{"id":52,"type":"PipeWire:Interface:Node","info":{"props":{"node.name":"alsa_output.example"},
        "params":{"EnumFormat":[],"PropInfo":[{"id":"mute","type":{"default":false}}],"Props":[]}}}"#;
    let bytes = dump(&[METADATA, node]);
    assert!(matches!(resolve_bytes(&bytes), Err(ResolveError::VolumeRangeNotFound(52))));
}

#[test]
fn invalid_volume_range() {
    let bytes = dump(&[METADATA, &prop_node("1.0", "1.0", "1.0", false)]);
    assert!(matches!(
        resolve_bytes(&bytes),
        Err(ResolveError::InvalidVolumeRange(1_000_000_000, 1_000_000_000))
    ));
}

#[test]
fn volume_state_not_found() {
    let node = r#"{"id":52,"type":"PipeWire:Interface:Node","info":{"props":{"node.name":"alsa_output.example"},
        "params":{"EnumFormat":[],"PropInfo":[{"id":"volume","type":{"default":1.0,"min":0.0,"max":10.0}}],"Props":[{"mute":true}]}}}"#;
    let bytes = dump(&[METADATA, node]);
    assert!(matches!(resolve_bytes(&bytes), Err(ResolveError::VolumeStateNotFound(52))));
}

#[test]
fn invalid_delta_is_refused() {
    let r = run(&route_dump(false, "0.5"), Request::Change("abc%".to_string()));
    assert!(matches!(r, Err(Failure::InvalidDeltaFormat)));
}

#[test]
fn malformed_input() {
    assert!(matches!(run(b"not json", Request::Status), Err(Failure::MalformedInput)));
    assert!(matches!(run(b"{\"a\":1}", Request::Status), Err(Failure::MalformedInput)));
}

#[test]
fn unknown_entries_are_kept_in_order() {
    let bytes = dump(&[r#"{"id":7,"type":"PipeWire:Interface:Client"}"#, METADATA, "42"]);
    let objs = decode_dump(parse_json(&bytes).unwrap()).unwrap();
    assert_eq!(objs.len(), 3);
    assert!(matches!(objs[0], DumpObject::Unknown(_)));
    assert!(matches!(objs[1], DumpObject::Metadata(_)));
    assert!(matches!(objs[2], DumpObject::Unknown(_)));
}

#[test]
fn metadata_shape_comes_before_node_shape() {
    let both = r#"{"id":1,"type":"PipeWire:Interface:Node","metadata":[],"info":{"props":{"node.name":"n"},"params":{"EnumFormat":[],"PropInfo":[],"Props":[]}}}"#;
    let objs = decode_dump(parse_json(&dump(&[both])).unwrap()).unwrap();
    assert!(matches!(objs[0], DumpObject::Metadata(_)));
}

#[test]
fn first_matching_node_wins() {
    let second = route_node("alsa_output.example").replace("\"id\":40", "\"id\":41").replace(
        "\"device.id\":3",
        "\"device.id\":9",
    );
    let bytes = dump(&[METADATA, &route_node("alsa_output.example"), &second, &device(false, "0.5")]);
    assert!(matches!(resolve_bytes(&bytes), Ok(Target::Route { device: 3, .. })));
}

#[test]
fn node_with_bad_channel_field_is_unknown() {
    let node = route_node("alsa_output.example").replace("{\"channels\":2}", "{\"channels\":\"two\"}");
    let objs = decode_dump(parse_json(&dump(&[&node])).unwrap()).unwrap();
    assert!(matches!(objs[0], DumpObject::Unknown(_)));
}

#[test]
fn exponent_volume_from_dump() {
    let bytes = route_dump(false, "1e-6, 0.000001");
    match resolve_bytes(&bytes).unwrap() {
        Target::Route { channel_volumes, .. } => assert_eq!(channel_volumes, vec![1_000, 1_000]),
        other => panic!("unexpected target {:?}", other),
    }
}

#[test]
fn commands_built_directly() {
    let t = Target::Node { node: 5, min: 0, max: 2_000_000_000, volume: 1_000_000_000, mute: false };
    assert_eq!(encode_command(&change_command(&t, 250_000_000)), r#"{"mute":false,"volume":1.5}"#);
    assert_eq!(encode_command(&mute_command(&t, Transition::Toggle)), r#"{"mute":true}"#);
    let r = dispatch(&t, Request::Status);
    assert_eq!(printed(r), r#"{"percentage":50, "tooltip":"50%"}"#);
}

#[test]
fn huge_dump_volume_saturates() {
    let bytes = route_dump(false, "5e9, 0.5");
    match resolve_bytes(&bytes).unwrap() {
        Target::Route { channel_volumes, .. } => {
            assert_eq!(channel_volumes, vec![1_000_000_000_000_000_000, 500_000_000])
        }
        other => panic!("unexpected target {:?}", other),
    }
}

#[test]
fn parse_json_reads_nested_values() {
    match parse_json(br#"[{"a":[1,2.5,"x",null,true]}]"#) {
        Some(pw_volume::json::Json::Array(items)) => assert_eq!(items.len(), 1),
        other => panic!("unexpected {:?}", other),
    }
    assert!(parse_json(b"[1,").is_none());
}
