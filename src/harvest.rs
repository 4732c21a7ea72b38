//! Harvesting the binding metadata that the compiler leaves in custom
//! sections of a module: the sections are found, their frames decoded into
//! programs under a strict schema-version gate, and then stripped.
use vstd::prelude::*;
use vstd::slice::slice_subrange;
use parity_wasm::elements::{Module, Section};
use wasm_bindgen_shared::Program;
use crate::frames::{frame_fits, le32_at, read_frame_len};

verus! {

#[verifier::external_type_specification]
#[verifier::external_body]
pub struct ExModule(Module);

#[verifier::external_type_specification]
#[verifier::external_body]
pub struct ExSection(Section);

#[verifier::external_type_specification]
#[verifier::external_body]
pub struct ExProgram(Program);

#[verifier::external_type_specification]
#[verifier::external_body]
pub struct ExJsonError(serde_json::Error);

/// The sections of a module, in module order.
pub uninterp spec fn sections_of(m: Module) -> Seq<Section>;

/// The name and payload of a custom section; `None` for any other section.
pub uninterp spec fn custom_parts(s: Section) -> Option<(Seq<char>, Seq<u8>)>;

/// The `(schema_version, version)` pair that the JSON text `b` decodes to,
/// when it decodes as a version envelope.
pub uninterp spec fn envelope_json(b: Seq<u8>) -> Option<(Seq<char>, Seq<char>)>;

/// The schema version of an envelope, when `b` decodes as one.
pub open spec fn envelope_schema(b: Seq<u8>) -> Seq<char> {
    match envelope_json(b) {
        Some((schema, _)) => schema,
        None => Seq::empty(),
    }
}

/// The producer version of an envelope, when `b` decodes as one.
pub open spec fn envelope_producer(b: Seq<u8>) -> Seq<char> {
    match envelope_json(b) {
        Some((_, producer)) => producer,
        None => Seq::empty(),
    }
}

/// The program record that the JSON text `b` decodes to, when it does.
pub uninterp spec fn program_json(b: Seq<u8>) -> Option<Program>;

/// The name of a custom section.
pub open spec fn custom_name(s: Section) -> Seq<char> {
    match custom_parts(s) {
        Some((name, _)) => name,
        None => Seq::empty(),
    }
}

/// The payload of a custom section.
pub open spec fn custom_payload(s: Section) -> Seq<u8> {
    match custom_parts(s) {
        Some((_, payload)) => payload,
        None => Seq::empty(),
    }
}

/// Relies on `Module::sections`: the number of sections.
#[verifier::external_body]
fn section_count(m: &Module) -> (r: usize)
    ensures
        r == sections_of(*m).len(),
{
    m.sections().len()
}

/// Relies on `Module::sections` and `CustomSection::name`: the name of the
/// section at `i` when it is a custom section.
#[verifier::external_body]
fn custom_name_at(m: &Module, i: usize) -> (r: Option<String>)
    requires
        i < sections_of(*m).len(),
    ensures
        r is Some <==> custom_parts(sections_of(*m)[i as int]) is Some,
        r is Some ==> r->0@ == custom_name(sections_of(*m)[i as int]),
{
    match &m.sections()[i] {
        Section::Custom(c) => Some(c.name().to_string()),
        _ => None,
    }
}

/// Relies on `Module::sections` and `CustomSection::payload`: a copy of the
/// payload of the custom section at `i`.
#[verifier::external_body]
fn custom_payload_at(m: &Module, i: usize) -> (r: Vec<u8>)
    requires
        i < sections_of(*m).len(),
        custom_parts(sections_of(*m)[i as int]) is Some,
    ensures
        r@ == custom_payload(sections_of(*m)[i as int]),
{
    match &m.sections()[i] {
        Section::Custom(c) => c.payload().to_vec(),
        _ => Vec::new(),
    }
}

/// Relies on `Module::sections_mut`: removes the section at `i`, keeping the
/// order of the others.
#[verifier::external_body]
fn remove_section(m: &mut Module, i: usize)
    requires
        i < sections_of(*old(m)).len(),
    ensures
        sections_of(*final(m)) == sections_of(*old(m)).remove(i as int),
{
    m.sections_mut().remove(i);
}

/// The version probe of a frame: the schema it was written under and the
/// version of the tool that wrote it.
pub struct VersionEnvelope {
    pub schema_version: String,
    pub producer_version: String,
}

/// Relies on `serde_json::from_slice` into
/// `wasm_bindgen_shared::ProgramOnlySchema`, a deterministic decode.
#[verifier::external_body]
fn decode_envelope(b: &[u8]) -> (r: Result<VersionEnvelope, serde_json::Error>)
    ensures
        r is Ok <==> envelope_json(b@) is Some,
        r is Ok ==> envelope_json(b@) == Some(
            (r->Ok_0.schema_version@, r->Ok_0.producer_version@),
        ),
{
    serde_json::from_slice::<wasm_bindgen_shared::ProgramOnlySchema>(b).map(
        |p| VersionEnvelope { schema_version: p.schema_version, producer_version: p.version },
    )
}

/// Relies on `serde_json::from_slice` into `wasm_bindgen_shared::Program`, a
/// deterministic decode.
#[verifier::external_body]
fn decode_program(b: &[u8]) -> (r: Result<Program, serde_json::Error>)
    ensures
        r is Ok <==> program_json(b@) is Some,
        r is Ok ==> program_json(b@) == Some(r->Ok_0),
{
    serde_json::from_slice::<Program>(b)
}

/// Relies on the `Display` of `serde_json::Error`: the text of a decode error.
#[verifier::external_body]
fn json_error_text(e: &serde_json::Error) -> String {
    e.to_string()
}

/// Relies on `wasm_bindgen_shared::version`: this tool's version string.
#[verifier::external_body]
fn compiled_tool_version() -> String {
    wasm_bindgen_shared::version()
}

/// Relies on `wasm_bindgen_shared::SCHEMA_VERSION`: the schema this tool reads.
#[verifier::external_body]
fn compiled_schema_version() -> String {
    wasm_bindgen_shared::SCHEMA_VERSION.to_string()
}

/// The two version values of the consuming tool, fixed for a whole run.
pub struct VersionConfig {
    /// The tool's own version, named in a mismatch diagnostic.
    pub tool_version: String,
    /// The only schema version whose frames are accepted.
    pub schema_version: String,
}

impl VersionConfig {
    /// The versions this build was compiled with.
    pub fn current() -> (r: VersionConfig) {
        VersionConfig { tool_version: compiled_tool_version(), schema_version: compiled_schema_version() }
    }
}

/// What went wrong in a frame, as the contracts see it.
pub enum Fault {
    /// The header, or the body it announces, runs past the payload's end.
    Truncated,
    /// The body is not a version envelope.
    BadEnvelope,
    /// The schema version differs; the producer's version is carried.
    Mismatch(Seq<char>),
    /// The versions agree but the body is not a program record.
    BadProgram,
}

/// The part of a malformed frame that could not be read.
pub enum MalformedKind {
    Truncated,
    BadEnvelope(String),
    BadProgram(String),
}

/// The fatal outcomes of harvesting.
pub enum MetadataError {
    /// A frame was written under another schema version.
    VersionMismatch { producer_version: String, consumer_version: String },
    /// A frame could not be read; `section` is the section's position in the
    /// module and `frame` the frame's position in that section.
    Malformed { section: usize, frame: usize, kind: MalformedKind },
}

impl MetadataError {
    /// Whether this error reports `fault` in frame `frame` of section
    /// `section`, for a consumer of version `consumer`.
    pub open spec fn reports(&self, section: nat, frame: nat, fault: Fault, consumer: Seq<char>) -> bool {
        match *self {
            MetadataError::VersionMismatch { producer_version, consumer_version } => {
                &&& fault == Fault::Mismatch(producer_version@)
                &&& consumer_version@ == consumer
            },
            MetadataError::Malformed { section: s, frame: f, kind } => {
                &&& s == section
                &&& f == frame
                &&& match kind {
                    MalformedKind::Truncated => fault == Fault::Truncated,
                    MalformedKind::BadEnvelope(_) => fault == Fault::BadEnvelope,
                    MalformedKind::BadProgram(_) => fault == Fault::BadProgram,
                }
            },
        }
    }
}

/// The body of the frame whose header starts at `at`.
pub open spec fn frame_body(p: Seq<u8>, at: int) -> Seq<u8> {
    p.subrange(at + 4, at + 4 + le32_at(p, at))
}

/// Decodes the frames of payload `p` from offset `at` on, the first of them
/// being frame number `k`: the programs in payload order, or the first fault
/// with its frame number.
pub open spec fn decode_frames(p: Seq<u8>, at: int, k: nat, schema: Seq<char>) -> Result<
    Seq<Program>,
    (nat, Fault),
>
    decreases p.len() - at,
{
    if at < 0 || at >= p.len() {
        Ok(seq![])
    } else if !frame_fits(p, at) {
        Err((k, Fault::Truncated))
    } else {
        let body = frame_body(p, at);
        match envelope_json(body) {
            None => Err((k, Fault::BadEnvelope)),
            Some(_) => if envelope_schema(body) != schema {
                Err((k, Fault::Mismatch(envelope_producer(body))))
            } else {
                match program_json(body) {
                    None => Err((k, Fault::BadProgram)),
                    Some(prog) => match decode_frames(p, at + 4 + le32_at(p, at), k + 1, schema) {
                        Ok(rest) => Ok(seq![prog] + rest),
                        Err(e) => Err(e),
                    },
                }
            },
        }
    }
}

/// `acc` followed by the programs of `r`, or the fault of `r`.
pub open spec fn after<E>(acc: Seq<Program>, r: Result<Seq<Program>, E>) -> Result<Seq<Program>, E> {
    match r {
        Ok(rest) => Ok(acc + rest),
        Err(e) => Err(e),
    }
}

/// The name of the custom sections that carry binding metadata.
pub open spec fn metadata_name() -> Seq<char> {
    "__wasm_bindgen_unstable"@
}

/// Whether `s` is a metadata section.
pub open spec fn is_metadata_section(s: Section) -> bool {
    &&& custom_parts(s) is Some
    &&& custom_name(s) == metadata_name()
}

/// Whether `s` survives harvesting.
pub open spec fn kept(s: Section) -> bool {
    !is_metadata_section(s)
}

/// `kept` as a predicate.
pub open spec fn survivors() -> spec_fn(Section) -> bool {
    |s: Section| kept(s)
}

/// The harvest of the first `n` sections: the programs of their metadata
/// sections in order, or the first fault, with section and frame number.
pub open spec fn harvest_upto(secs: Seq<Section>, n: int, schema: Seq<char>) -> Result<
    Seq<Program>,
    (nat, nat, Fault),
>
    decreases n,
{
    if n <= 0 {
        Ok(seq![])
    } else {
        match harvest_upto(secs, n - 1, schema) {
            Err(e) => Err(e),
            Ok(ps) => if is_metadata_section(secs[n - 1]) {
                match decode_frames(custom_payload(secs[n - 1]), 0, 0, schema) {
                    Ok(qs) => Ok(ps + qs),
                    Err((k, f)) => Err(((n - 1) as nat, k, f)),
                }
            } else {
                Ok(ps)
            },
        }
    }
}

/// The harvest of a whole module's sections.
pub open spec fn harvest(secs: Seq<Section>, schema: Seq<char>) -> Result<
    Seq<Program>,
    (nat, nat, Fault),
> {
    harvest_upto(secs, secs.len() as int, schema)
}

fn is_metadata_name(name: &String) -> (r: bool)
    ensures
        r == (name@ == metadata_name()),
{
    let wanted = "__wasm_bindgen_unstable".to_owned();
    *name == wanted
}

/// One step of `decode_frames`, from a frame that fits and decodes.
proof fn lemma_decode_step(p: Seq<u8>, at: int, k: nat, schema: Seq<char>)
    requires
        0 <= at < p.len(),
        frame_fits(p, at),
        envelope_json(frame_body(p, at)) is Some,
        envelope_schema(frame_body(p, at)) == schema,
        program_json(frame_body(p, at)) is Some,
    ensures
        decode_frames(p, at, k, schema) == after(
            seq![program_json(frame_body(p, at))->0],
            decode_frames(p, at + 4 + le32_at(p, at), k + 1, schema),
        ),
{
}

/// Decodes the frames of one metadata section's payload, appending the
/// programs to `out`. `section` is the section's position in the module.
fn decode_section(
    payload: &Vec<u8>,
    section: usize,
    config: &VersionConfig,
    out: &mut Vec<Program>,
) -> (r: Result<(), MetadataError>)
    ensures
        match decode_frames(payload@, 0, 0, config.schema_version@) {
            Ok(ps) => r is Ok && final(out)@ == old(out)@ + ps,
            Err((k, f)) => r is Err && r->Err_0.reports(section as nat, k, f, config.tool_version@),
        },
{
    let p = payload.as_slice();
    let ghost schema = config.schema_version@;
    let ghost acc: Seq<Program> = seq![];
    let mut at: usize = 0;
    let mut k: usize = 0;
    while at < p.len()
        invariant
            p@ == payload@,
            schema == config.schema_version@,
            at <= p@.len(),
            k <= at,
            out@ == old(out)@ + acc,
            decode_frames(p@, 0, 0, schema) == after(acc, decode_frames(p@, at as int, k as nat, schema)),
        decreases p@.len() - at,
    {
        let len = match read_frame_len(p, at) {
            Some(len) => len,
            None => {
                return Err(MetadataError::Malformed { section, frame: k, kind: MalformedKind::Truncated });
            },
        };
        let body = slice_subrange(p, at + 4, at + 4 + len);
        assert(body@ == frame_body(p@, at as int));
        let env = match decode_envelope(body) {
            Ok(env) => env,
            Err(e) => {
                let text = json_error_text(&e);
                return Err(
                    MetadataError::Malformed { section, frame: k, kind: MalformedKind::BadEnvelope(text) },
                );
            },
        };
        if !(env.schema_version == config.schema_version) {
            return Err(
                MetadataError::VersionMismatch {
                    producer_version: env.producer_version,
                    consumer_version: config.tool_version.clone(),
                },
            );
        }
        let prog = match decode_program(body) {
            Ok(prog) => prog,
            Err(e) => {
                let text = json_error_text(&e);
                return Err(
                    MetadataError::Malformed { section, frame: k, kind: MalformedKind::BadProgram(text) },
                );
            },
        };
        proof {
            lemma_decode_step(p@, at as int, k as nat, schema);
            let next = decode_frames(p@, at + 4 + len, (k + 1) as nat, schema);
            if next is Ok {
                let rest = next->Ok_0;
                assert(acc + (seq![prog] + rest) =~= (acc + seq![prog]) + rest);
            }
            acc = acc + seq![prog];
        }
        out.push(prog);
        at = at + 4 + len;
        k = k + 1;
    }
    assert(acc + Seq::<Program>::empty() =~= acc);
    Ok(())
}

/// Removes every metadata section, keeping the others in order; a module
/// without one is left as it is.
fn strip_metadata_sections(m: &mut Module)
    ensures
        sections_of(*final(m)) == sections_of(*old(m)).filter(survivors()),
        (forall|i: int| 0 <= i < sections_of(*old(m)).len() ==> kept(#[trigger] sections_of(*old(m))[i]))
            ==> *final(m) == *old(m),
{
    let ghost secs = sections_of(*m);
    let ghost pred = survivors();
    let n = section_count(m);
    let mut i: usize = 0;
    let mut j: usize = 0;
    while i < n
        invariant
            n == secs.len(),
            j <= i <= n,
            j == secs.take(i as int).filter(pred).len(),
            sections_of(*m) == secs.take(i as int).filter(pred) + secs.skip(i as int),
            (forall|t: int| 0 <= t < i ==> kept(#[trigger] secs[t])) ==> *m == *old(m),
            secs == sections_of(*old(m)),
            pred == survivors(),
        decreases n - i,
    {
        proof {
            reveal(Seq::filter);
            assert(secs.take(i + 1).drop_last() =~= secs.take(i as int));
            assert(secs.take(i + 1).last() == secs[i as int]);
            assert(sections_of(*m)[j as int] == secs[i as int]);
        }
        let keep = match custom_name_at(m, j) {
            Some(name) => !is_metadata_name(&name),
            None => true,
        };
        if keep {
            proof {
                reveal(Seq::filter);
                assert(secs.take(i + 1).filter(pred) == secs.take(i as int).filter(pred).push(secs[i as int]));
                assert(secs.take(i as int).filter(pred) + secs.skip(i as int)
                    =~= secs.take(i + 1).filter(pred) + secs.skip(i + 1));
            }
            j = j + 1;
        } else {
            remove_section(m, j);
            proof {
                reveal(Seq::filter);
                assert(secs.take(i + 1).filter(pred) == secs.take(i as int).filter(pred));
                assert(sections_of(*m) =~= secs.take(i + 1).filter(pred) + secs.skip(i + 1));
            }
        }
        i = i + 1;
    }
    proof {
        assert(secs.take(n as int) =~= secs);
        assert(secs.skip(n as int) =~= Seq::<Section>::empty());
        assert(sections_of(*m) =~= secs.filter(pred));
    }
}

/// Once the harvest of a prefix has failed, every longer prefix fails alike.
proof fn lemma_fault_persists(secs: Seq<Section>, m: int, n: int, schema: Seq<char>)
    requires
        0 <= m <= n,
        harvest_upto(secs, m, schema) is Err,
    ensures
        harvest_upto(secs, n, schema) == harvest_upto(secs, m, schema),
    decreases n - m,
{
    if n > m {
        lemma_fault_persists(secs, m, n - 1, schema);
    }
}

/// A module without metadata sections harvests to no programs.
proof fn lemma_no_metadata(secs: Seq<Section>, n: int, schema: Seq<char>)
    requires
        n <= secs.len(),
        forall|i: int| 0 <= i < secs.len() ==> kept(#[trigger] secs[i]),
    ensures
        harvest_upto(secs, n, schema) == Ok::<Seq<Program>, (nat, nat, Fault)>(seq![]),
    decreases n,
{
    if n > 0 {
        lemma_no_metadata(secs, n - 1, schema);
        assert(kept(secs[n - 1]));
    }
}

/// Removes every custom section named `__wasm_bindgen_unstable` from
/// `module` and returns the programs decoded from their frames: sections in
/// module order, frames in payload order. Each frame's version envelope is
/// checked against `config.schema_version` before the full record is decoded.
/// On an error the module is left as it was.
pub fn extract_programs(module: &mut Module, config: &VersionConfig) -> (r: Result<
    Vec<Program>,
    MetadataError,
>)
    ensures
        match harvest(sections_of(*old(module)), config.schema_version@) {
            Ok(ps) => {
                &&& r is Ok
                &&& r->Ok_0@ == ps
                &&& sections_of(*final(module)) == sections_of(*old(module)).filter(survivors())
            },
            Err((s, k, f)) => {
                &&& r is Err
                &&& r->Err_0.reports(s, k, f, config.tool_version@)
                &&& *final(module) == *old(module)
            },
        },
        r is Ok ==> forall|i: int|
            0 <= i < sections_of(*final(module)).len() ==> kept(#[trigger] sections_of(*final(module))[i]),
        (forall|i: int|
            0 <= i < sections_of(*old(module)).len() ==> kept(#[trigger] sections_of(*old(module))[i]))
            ==> r is Ok && r->Ok_0@ == Seq::<Program>::empty() && *final(module) == *old(module),
{
    let ghost secs = sections_of(*module);
    let ghost schema = config.schema_version@;
    let n = section_count(module);
    let mut programs: Vec<Program> = Vec::new();
    let mut i: usize = 0;
    while i < n
        invariant
            n == secs.len(),
            secs == sections_of(*module),
            *module == *old(module),
            schema == config.schema_version@,
            i <= n,
            harvest_upto(secs, i as int, schema) == Ok::<Seq<Program>, (nat, nat, Fault)>(programs@),
        decreases n - i,
    {
        let is_metadata = match custom_name_at(module, i) {
            Some(name) => is_metadata_name(&name),
            None => false,
        };
        if is_metadata {
            let payload = custom_payload_at(module, i);
            let res = decode_section(&payload, i, config, &mut programs);
            if let Err(e) = res {
                proof {
                    lemma_fault_persists(secs, i + 1, n as int, schema);
                }
                return Err(e);
            }
        }
        i = i + 1;
    }
    assert(secs.take(n as int) =~= secs);
    strip_metadata_sections(module);
    proof {
        reveal(Seq::filter);
        let kept_secs = secs.filter(survivors());
        assert forall|t: int| 0 <= t < kept_secs.len() implies kept(#[trigger] kept_secs[t]) by {
            secs.lemma_filter_pred(survivors(), t);
        }
        if forall|t: int| 0 <= t < secs.len() ==> kept(#[trigger] secs[t]) {
            lemma_no_metadata(secs, n as int, schema);
        }
    }
    Ok(programs)
}

/// A frame whose declared length runs past the end of the payload is
/// malformed, whatever the bytes after its header hold.
pub proof fn lemma_overrun_is_malformed(p: Seq<u8>, at: int, k: nat, schema: Seq<char>)
    requires
        0 <= at < p.len(),
        at + 4 <= p.len(),
        at + 4 + le32_at(p, at) > p.len(),
    ensures
        decode_frames(p, at, k, schema) == Err::<Seq<Program>, (nat, Fault)>((k, Fault::Truncated)),
{
}

/// The schema version is checked before the full record is decoded: a frame
/// whose envelope names another schema is a version mismatch, whether or not
/// its body is a program record.
pub proof fn lemma_version_checked_first(p: Seq<u8>, at: int, k: nat, schema: Seq<char>)
    requires
        0 <= at < p.len(),
        frame_fits(p, at),
        envelope_json(frame_body(p, at)) is Some,
        envelope_schema(frame_body(p, at)) != schema,
    ensures
        decode_frames(p, at, k, schema) == Err::<Seq<Program>, (nat, Fault)>(
            (k, Fault::Mismatch(envelope_producer(frame_body(p, at)))),
        ),
{
}

/// A frame header followed by its body.
pub open spec fn frame_bytes(f: (Seq<u8>, Seq<u8>)) -> Seq<u8> {
    f.0 + f.1
}

/// Whether `f` is a header that announces exactly its body.
pub open spec fn well_framed(f: (Seq<u8>, Seq<u8>)) -> bool {
    &&& f.0.len() == 4
    &&& le32_at(f.0, 0) == f.1.len()
}

/// Frames laid back to back, as a section payload holds them.
pub open spec fn concat_frames(fs: Seq<(Seq<u8>, Seq<u8>)>) -> Seq<u8>
    decreases fs.len(),
{
    if fs.len() == 0 {
        Seq::empty()
    } else {
        frame_bytes(fs[0]) + concat_frames(fs.drop_first())
    }
}

/// Decoding does not look at what precedes the offset it starts from.
proof fn lemma_decode_shift(a: Seq<u8>, b: Seq<u8>, at: int, k: nat, schema: Seq<char>)
    requires
        0 <= at <= b.len(),
    ensures
        decode_frames(a + b, a.len() + at, k, schema) == decode_frames(b, at, k, schema),
    decreases b.len() - at,
{
    let ab = a + b;
    let off = a.len() + at;
    if at < b.len() {
        if at + 4 <= b.len() {
            assert(ab[off] == b[at]);
            assert(ab[off + 1] == b[at + 1]);
            assert(ab[off + 2] == b[at + 2]);
            assert(ab[off + 3] == b[at + 3]);
            assert(le32_at(ab, off) == le32_at(b, at));
        }
        if frame_fits(b, at) {
            assert(frame_body(ab, off) =~= frame_body(b, at));
            lemma_decode_shift(a, b, at + 4 + le32_at(b, at), k + 1, schema);
        }
    }
}

/// Well-framed frames whose envelopes carry the expected schema and whose
/// bodies are program records decode to those records, in frame order.
pub proof fn lemma_frames_round_trip(fs: Seq<(Seq<u8>, Seq<u8>)>, k: nat, schema: Seq<char>)
    requires
        forall|i: int| 0 <= i < fs.len() ==> well_framed(#[trigger] fs[i]),
        forall|i: int| 0 <= i < fs.len() ==> envelope_json(#[trigger] fs[i].1) is Some,
        forall|i: int| 0 <= i < fs.len() ==> envelope_schema(#[trigger] fs[i].1) == schema,
        forall|i: int| 0 <= i < fs.len() ==> program_json(#[trigger] fs[i].1) is Some,
    ensures
        decode_frames(concat_frames(fs), 0, k, schema) == Ok::<Seq<Program>, (nat, Fault)>(
            Seq::new(fs.len(), |i: int| program_json(fs[i].1)->0),
        ),
    decreases fs.len(),
{
    let progs = Seq::new(fs.len(), |i: int| program_json(fs[i].1)->0);
    if fs.len() == 0 {
        assert(progs =~= Seq::<Program>::empty());
    } else {
        let f = fs[0];
        let rest = fs.drop_first();
        assert(well_framed(f));
        assert(forall|i: int| 0 <= i < rest.len() ==> #[trigger] rest[i] == fs[i + 1]);
        lemma_frames_round_trip(rest, k + 1, schema);
        let p = concat_frames(fs);
        let head = frame_bytes(f);
        assert(p == head + concat_frames(rest));
        assert(p[0] == f.0[0] && p[1] == f.0[1] && p[2] == f.0[2] && p[3] == f.0[3]);
        assert(le32_at(p, 0) == f.1.len());
        assert(frame_body(p, 0) =~= f.1);
        lemma_decode_shift(head, concat_frames(rest), 0, k + 1, schema);
        assert(head.len() == 4 + le32_at(p, 0));
        let tail = Seq::new(rest.len(), |i: int| program_json(rest[i].1)->0);
        assert(progs =~= seq![program_json(f.1)->0] + tail);
    }
}

} // verus!
