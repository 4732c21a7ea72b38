use parity_wasm::elements::{CustomSection, Module, Section};
use wasm_bindgen_cli_support::frames::read_frame_len;
use wasm_bindgen_cli_support::{extract_programs, MalformedKind, MetadataError, VersionConfig};

const META: &str = "__wasm_bindgen_unstable";

fn custom(name: &str, payload: Vec<u8>) -> Section {
    let mut c = CustomSection::default();
    *c.name_mut() = name.to_string();
    *c.payload_mut() = payload;
    Section::Custom(c)
}

fn frame(json: &str) -> Vec<u8> {
    let n = json.len() as u32;
    let mut v = n.to_le_bytes().to_vec();
    v.extend_from_slice(json.as_bytes());
    v
}

fn program_json(version: &str, schema: &str) -> String {
    format!(
        "{{\"exports\":[],\"enums\":[],\"imports\":[],\"structs\":[],\"version\":\"{}\",\"schema_version\":\"{}\"}}",
        version, schema
    )
}

fn config() -> VersionConfig {
    VersionConfig { tool_version: "0.2.10".to_string(), schema_version: "4".to_string() }
}

fn bytes(m: &Module) -> Vec<u8> {
    parity_wasm::serialize(m.clone()).unwrap()
}

fn section_names(m: &Module) -> Vec<String> {
    m.sections()
        .iter()
        .map(|s| match s {
            Section::Custom(c) => c.name().to_string(),
            _ => "<other>".to_string(),
        })
        .collect()
}

#[test]
fn no_metadata_section_yields_nothing_and_keeps_module() {
    let mut m = Module::new(vec![
        custom("name", vec![1, 2, 3]),
        Section::Start(0),
        custom("producers", frame(&program_json("x", "4"))),
    ]);
    let before = bytes(&m);
    let r = extract_programs(&mut m, &config());
    assert!(matches!(r, Ok(ref ps) if ps.is_empty()));
    assert_eq!(bytes(&m), before);
}

#[test]
fn empty_module_yields_nothing() {
    let mut m = Module::new(vec![]);
    let r = extract_programs(&mut m, &config()).ok().unwrap();
    assert!(r.is_empty());
    assert!(m.sections().is_empty());
}

#[test]
fn frames_decode_in_order_and_sections_are_stripped() {
    let mut first = frame(&program_json("a", "4"));
    first.extend(frame(&program_json("b", "4")));
    let second = frame(&program_json("c", "4"));
    let mut m = Module::new(vec![
        custom(META, first),
        custom("other", vec![9]),
        Section::Start(3),
        custom(META, second),
    ]);
    let ps = extract_programs(&mut m, &config()).ok().unwrap();
    let versions: Vec<&str> = ps.iter().map(|p| p.version.as_str()).collect();
    assert_eq!(versions, vec!["a", "b", "c"]);
    assert_eq!(section_names(&m), vec!["other".to_string(), "<other>".to_string()]);
}

#[test]
fn empty_metadata_section_is_stripped() {
    let mut m = Module::new(vec![custom(META, vec![]), custom("keep", vec![])]);
    let ps = extract_programs(&mut m, &config()).ok().unwrap();
    assert!(ps.is_empty());
    assert_eq!(section_names(&m), vec!["keep".to_string()]);
}

#[test]
fn overrunning_length_is_malformed() {
    let mut payload = frame(&program_json("a", "4"));
    payload.extend_from_slice(&100u32.to_le_bytes());
    payload.extend_from_slice(b"{\"schema_version\":\"4\"");
    let mut m = Module::new(vec![Section::Start(0), custom(META, payload)]);
    let before = bytes(&m);
    match extract_programs(&mut m, &config()) {
        Err(MetadataError::Malformed { section, frame, kind: MalformedKind::Truncated }) => {
            assert_eq!(section, 1);
            assert_eq!(frame, 1);
        }
        _ => panic!("expected a truncated frame"),
    }
    assert_eq!(bytes(&m), before);
}

#[test]
fn short_header_is_malformed() {
    let mut m = Module::new(vec![custom(META, vec![1, 0])]);
    let r = extract_programs(&mut m, &config());
    assert!(matches!(
        r,
        Err(MetadataError::Malformed { section: 0, frame: 0, kind: MalformedKind::Truncated })
    ));
}

#[test]
fn version_mismatch_is_reported_before_full_decode() {
    let payload = frame("{\"schema_version\":\"3\",\"version\":\"0.2.3\"}");
    let mut m = Module::new(vec![custom(META, payload)]);
    match extract_programs(&mut m, &config()) {
        Err(MetadataError::VersionMismatch { producer_version, consumer_version }) => {
            assert_eq!(producer_version, "0.2.3");
            assert_eq!(consumer_version, "0.2.10");
        }
        _ => panic!("expected a version mismatch"),
    }
}

#[test]
fn bad_record_after_version_match_is_malformed() {
    let payload = frame("{\"schema_version\":\"4\",\"version\":\"0.2.10\"}");
    let mut m = Module::new(vec![custom(META, payload)]);
    let r = extract_programs(&mut m, &config());
    assert!(matches!(
        r,
        Err(MetadataError::Malformed { section: 0, frame: 0, kind: MalformedKind::BadProgram(_) })
    ));
}

#[test]
fn bad_envelope_is_malformed() {
    let payload = frame("not json");
    let mut m = Module::new(vec![custom(META, payload)]);
    let r = extract_programs(&mut m, &config());
    assert!(matches!(
        r,
        Err(MetadataError::Malformed { section: 0, frame: 0, kind: MalformedKind::BadEnvelope(_) })
    ));
}

#[test]
fn compiled_versions_accept_current_frames() {
    let cfg = VersionConfig::current();
    assert_eq!(cfg.schema_version, wasm_bindgen_shared::SCHEMA_VERSION);
    assert_eq!(cfg.tool_version, wasm_bindgen_shared::version());
    let mut m = Module::new(vec![custom(META, frame(&program_json("p", &cfg.schema_version)))]);
    let ps = extract_programs(&mut m, &cfg).ok().unwrap();
    assert_eq!(ps.len(), 1);
}

#[test]
fn frame_length_reads_little_endian() {
    let p = [3u8, 1, 0, 0];
    assert_eq!(read_frame_len(&p, 0), None);
    let mut q = vec![2u8, 1, 0, 0];
    q.extend(vec![0u8; 258]);
    assert_eq!(read_frame_len(&q, 0), Some(258));
    assert_eq!(read_frame_len(&q, 1), Some(1));
    assert_eq!(read_frame_len(&q, 259), None);
    assert_eq!(read_frame_len(&[], 0), None);
}
