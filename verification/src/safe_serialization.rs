//! The serialization envelope: every encoded artifact is wrapped with a
//! header carrying global metadata (format version, versioning mode and
//! version, type name), and both header and payload are decoded under
//! independent byte ceilings so a crafted stream cannot exhaust memory
//! before the limit is consulted.
use vstd::prelude::*;

use crate::codec::{ascii_bytes, ascii_chars, ascii_only, BinaryCodec, Named, str_to_bytes};
use crate::conformance::ParameterSetConformant;
use crate::errors::bytes_to_string;
use crate::versioning::Versionize;
use crate::wire::{
    bytes_enc, bytes_eq, lemma_parse_bytes_complete, lemma_parse_bytes_sound, parse_bytes,
    read_bytes, write_bytes, write_u8,
};

verus! {

use vstd::string::StringExecFns;

/// The global version of the serialization scheme in use; to change when
/// the header's own layout changes.
pub open spec fn spec_serialization_version() -> Seq<u8> {
    ascii_bytes("0.5"@)
}

/// The version of the versioning scheme used for backward compatibility
/// on persisted types.
pub open spec fn spec_versioning_version() -> Seq<u8> {
    ascii_bytes("0.1"@)
}

/// The current version of this implementation, used to reject unversioned
/// data written by any other release.
pub open spec fn spec_crate_version() -> Seq<u8> {
    ascii_bytes("0.8"@)
}

/// The serialization scheme version, as bytes.
pub fn serialization_version_bytes() -> (r: Vec<u8>)
    ensures
        r@ == spec_serialization_version(),
{
    proof {
        reveal_strlit("0.5");
    }
    str_to_bytes("0.5")
}

/// The versioning scheme version, as bytes.
pub fn versioning_version_bytes() -> (r: Vec<u8>)
    ensures
        r@ == spec_versioning_version(),
{
    proof {
        reveal_strlit("0.1");
    }
    str_to_bytes("0.1")
}

/// The implementation version, as bytes.
pub fn crate_version_bytes() -> (r: Vec<u8>)
    ensures
        r@ == spec_crate_version(),
{
    proof {
        reveal_strlit("0.8");
    }
    str_to_bytes("0.8")
}

/// The three version strings are short.
pub proof fn lemma_version_lens()
    ensures
        spec_serialization_version().len() == 3,
        spec_versioning_version().len() == 3,
        spec_crate_version().len() == 3,
{
    reveal_strlit("0.5");
    reveal_strlit("0.1");
    reveal_strlit("0.8");
}

/// Maximum header size that decoding will read; a longer header is
/// refused before it is materialized, so an attacker cannot exhaust
/// memory with the header alone.
pub const HEADER_LENGTH_LIMIT: u64 = 1000;

/// Tells if a serialized object is versioned or not.
#[derive(Debug, Clone, Copy, PartialEq, Eq, Structural)]
pub enum SerializationVersioningMode {
    /// Serialize with type versioning for backward compatibility.
    Versioned,
    /// Serialize the type without versioning information.
    Unversioned,
}

/// The wire byte of a versioning mode.
pub open spec fn mode_byte(m: SerializationVersioningMode) -> u8 {
    match m {
        SerializationVersioningMode::Versioned => 0,
        SerializationVersioningMode::Unversioned => 1,
    }
}

/// Parse one versioning-mode byte.
pub open spec fn parse_mode(b: Seq<u8>) -> Option<(SerializationVersioningMode, int)> {
    if b.len() < 1 {
        None
    } else if b[0] == 0 {
        Some((SerializationVersioningMode::Versioned, 1int))
    } else if b[0] == 1 {
        Some((SerializationVersioningMode::Unversioned, 1int))
    } else {
        None
    }
}

/// Header with global metadata about the serialized object, checked
/// before the payload is trusted.
#[derive(Debug, Clone, PartialEq, Eq)]
pub struct SerializationHeader {
    pub header_version: Vec<u8>,
    pub versioning_mode: SerializationVersioningMode,
    pub versioning_version: Vec<u8>,
    pub name: Vec<u8>,
}

/// Abstract value of a [`SerializationHeader`].
pub struct SerializationHeaderView {
    pub header_version: Seq<u8>,
    pub versioning_mode: SerializationVersioningMode,
    pub versioning_version: Seq<u8>,
    pub name: Seq<u8>,
}

impl View for SerializationHeader {
    type V = SerializationHeaderView;

    open spec fn view(&self) -> SerializationHeaderView {
        SerializationHeaderView {
            header_version: self.header_version@,
            versioning_mode: self.versioning_mode,
            versioning_version: self.versioning_version@,
            name: self.name@,
        }
    }
}

/// A header's variable fields are short enough for their length prefixes.
pub open spec fn header_wf(h: SerializationHeaderView) -> bool {
    &&& h.header_version.len() < 0x1_0000_0000_0000_0000
    &&& h.versioning_version.len() < 0x1_0000_0000_0000_0000
    &&& h.name.len() < 0x1_0000_0000_0000_0000
}

/// The bytes of a header: three length-prefixed strings around one mode
/// byte, in a fixed order.
pub open spec fn header_encoding(h: SerializationHeaderView) -> Seq<u8> {
    bytes_enc(h.header_version) + seq![mode_byte(h.versioning_mode)] + bytes_enc(
        h.versioning_version,
    ) + bytes_enc(h.name)
}

/// The unique prefix parse of a header.
pub open spec fn parse_header(b: Seq<u8>) -> Option<(SerializationHeaderView, int)> {
    match parse_bytes(b) {
        None => None,
        Some((hv, n1)) => match parse_mode(b.skip(n1)) {
            None => None,
            Some((m, _)) => match parse_bytes(b.skip(n1 + 1)) {
                None => None,
                Some((vv, n2)) => match parse_bytes(b.skip(n1 + 1 + n2)) {
                    None => None,
                    Some((nm, n3)) => Some(
                        (
                            SerializationHeaderView {
                                header_version: hv,
                                versioning_mode: m,
                                versioning_version: vv,
                                name: nm,
                            },
                            n1 + 1 + n2 + n3,
                        ),
                    ),
                },
            },
        },
    }
}

/// Soundness of the header parse: whatever parses was an exact header
/// encoding. Together with [`lemma_parse_header_complete`] it makes the
/// header parse the unique prefix parse, like every payload codec's.
pub proof fn lemma_parse_header_sound(b: Seq<u8>)
    ensures
        parse_header(b) matches Some((h, n)) ==> {
            &&& 0 <= n <= b.len()
            &&& header_wf(h)
            &&& n == header_encoding(h).len()
            &&& b.take(n) == header_encoding(h)
        },
{
    lemma_parse_bytes_sound(b);
    if let Some((hv, n1)) = parse_bytes(b) {
        if parse_mode(b.skip(n1)) is Some {
            lemma_parse_bytes_sound(b.skip(n1 + 1));
            if let Some((vv, n2)) = parse_bytes(b.skip(n1 + 1)) {
                lemma_parse_bytes_sound(b.skip(n1 + 1 + n2));
                if let Some((nm, n3)) = parse_bytes(b.skip(n1 + 1 + n2)) {
                    let m = parse_mode(b.skip(n1))->Some_0.0;
                    assert(b.skip(n1).take(1) =~= seq![mode_byte(m)]);
                    assert(b.skip(n1 + 1).take(n2) =~= b.skip(n1 + 1).take(n2));
                    assert(b.take(n1 + 1 + n2 + n3) =~= b.take(n1) + b.skip(n1).take(1) + b.skip(
                        n1 + 1,
                    ).take(n2) + b.skip(n1 + 1 + n2).take(n3));
                }
            }
        }
    }
}

pub proof fn lemma_parse_header_complete(h: SerializationHeaderView, b: Seq<u8>)
    requires
        header_wf(h),
        header_encoding(h).len() <= b.len(),
        b.take(header_encoding(h).len() as int) == header_encoding(h),
    ensures
        parse_header(b) == Some((h, header_encoding(h).len() as int)),
{
    let e1 = bytes_enc(h.header_version);
    let e2 = bytes_enc(h.versioning_version);
    let e3 = bytes_enc(h.name);
    let e = header_encoding(h);
    let n1 = e1.len() as int;
    let n2 = e2.len() as int;
    let n3 = e3.len() as int;
    assert(e.len() == n1 + 1 + n2 + n3);
    assert forall|i: int| 0 <= i < e.len() implies b[i] == e[i] by {
        assert(b.take(e.len() as int)[i] == e[i]);
    }
    assert(b.take(n1) =~= e1);
    lemma_parse_bytes_complete(h.header_version, b);
    assert(b.skip(n1)[0] == e[n1]);
    assert(e[n1] == mode_byte(h.versioning_mode));
    assert(parse_mode(b.skip(n1)) == Some((h.versioning_mode, 1int)));
    assert(b.skip(n1 + 1).take(n2) =~= e2) by {
        assert forall|i: int| 0 <= i < n2 implies b.skip(n1 + 1)[i] == e2[i] by {
            assert(b[n1 + 1 + i] == e[n1 + 1 + i]);
        }
    }
    lemma_parse_bytes_complete(h.versioning_version, b.skip(n1 + 1));
    assert(b.skip(n1 + 1 + n2).take(n3) =~= e3) by {
        assert forall|i: int| 0 <= i < n3 implies b.skip(n1 + 1 + n2)[i] == e3[i] by {
            assert(b[n1 + 1 + n2 + i] == e[n1 + 1 + n2 + i]);
        }
    }
    lemma_parse_bytes_complete(h.name, b.skip(n1 + 1 + n2));
}

impl SerializationHeader {
    /// Appends the header's wire bytes to `out`.
    pub fn encode_into(&self, out: &mut Vec<u8>)
        ensures
            final(out)@ == old(out)@ + header_encoding(self@),
    {
        write_bytes(out, &self.header_version);
        let mb: u8 = match self.versioning_mode {
            SerializationVersioningMode::Versioned => 0,
            SerializationVersioningMode::Unversioned => 1,
        };
        write_u8(out, mb);
        write_bytes(out, &self.versioning_version);
        write_bytes(out, &self.name);
        proof {
            assert(final(out)@ =~= old(out)@ + header_encoding(self@));
        }
    }

    /// Decodes one header at `pos`, refusing a header whose encoded size
    /// exceeds `limit` bytes (0 meaning unlimited) before building it.
    pub fn decode_from(b: &[u8], pos: usize, limit: u64) -> (r: Result<
        (SerializationHeader, usize),
        (),
    >)
        requires
            pos <= b@.len(),
        ensures
            match parse_header(b@.skip(pos as int)) {
                Some((h, n)) => if limit == 0 || n <= limit as int {
                    r matches Ok(p) && p.0@ == h && p.1 == pos + n
                } else {
                    r is Err
                },
                None => r is Err,
            },
    {
        let ghost tail = b@.skip(pos as int);
        proof {
            lemma_parse_bytes_sound(tail);
            if let Some((hv0, m1)) = parse_bytes(tail) {
                lemma_parse_bytes_sound(tail.skip(m1 + 1));
                if let Some((vv0, m2)) = parse_bytes(tail.skip(m1 + 1)) {
                    lemma_parse_bytes_sound(tail.skip(m1 + 1 + m2));
                }
            }
        }
        let (header_version, p1) = match read_bytes(b, pos, limit) {
            Ok(p) => p,
            Err(_) => {
                return Err(());
            },
        };
        let used1: u64 = (p1 - pos) as u64;
        if p1 >= b.len() {
            return Err(());
        }
        let mb = b[p1];
        proof {
            assert(tail[p1 - pos as int] == b@[p1 as int]);
            assert(tail.skip(p1 - pos as int)[0] == tail[p1 - pos as int]);
        }
        let versioning_mode = if mb == 0 {
            SerializationVersioningMode::Versioned
        } else if mb == 1 {
            SerializationVersioningMode::Unversioned
        } else {
            return Err(());
        };
        if limit != 0 && used1 + 1 >= limit {
            proof {
                if let Some((h, n)) = parse_header(tail) {
                    lemma_parse_bytes_sound(tail.skip(used1 as int + 1));
                }
            }
            return Err(());
        }
        let rem2: u64 = if limit == 0 {
            0
        } else {
            limit - used1 - 1
        };
        proof {
            assert(tail.skip(used1 as int + 1) =~= b@.skip(p1 as int + 1));
        }
        let (versioning_version, p2) = match read_bytes(b, p1 + 1, rem2) {
            Ok(p) => p,
            Err(_) => {
                return Err(());
            },
        };
        let used2: u64 = (p2 - pos) as u64;
        if limit != 0 && used2 >= limit {
            proof {
                if let Some((h, n)) = parse_header(tail) {
                    lemma_parse_bytes_sound(tail.skip(used2 as int));
                }
            }
            return Err(());
        }
        let rem3: u64 = if limit == 0 {
            0
        } else {
            limit - used2
        };
        proof {
            assert(tail.skip(used2 as int) =~= b@.skip(p2 as int));
        }
        let (name, p3) = match read_bytes(b, p2, rem3) {
            Ok(p) => p,
            Err(_) => {
                return Err(());
            },
        };
        Ok((SerializationHeader { header_version, versioning_mode, versioning_version, name }, p3))
    }

    /// Creates a new header for a versioned message.
    pub fn new_versioned<T: Named>() -> (r: Self)
        ensures
            r@ == spec_header_versioned(T::spec_name(), spec_versioning_version()),
    {
        SerializationHeader {
            header_version: serialization_version_bytes(),
            versioning_mode: SerializationVersioningMode::Versioned,
            versioning_version: versioning_version_bytes(),
            name: T::name_bytes(),
        }
    }

    /// Creates a new header for an unversioned message.
    pub fn new_unversioned<T: Named>() -> (r: Self)
        ensures
            r@ == spec_header_unversioned(T::spec_name(), spec_crate_version()),
    {
        SerializationHeader {
            header_version: serialization_version_bytes(),
            versioning_mode: SerializationVersioningMode::Unversioned,
            versioning_version: crate_version_bytes(),
            name: T::name_bytes(),
        }
    }

    /// Checks the header against explicitly supplied expectations: for a
    /// versioned payload the versioning-scheme version must match, since
    /// the versioning mechanism itself has no upgrade path; an
    /// unversioned payload is interpretable only by the exact
    /// implementation version that wrote it; and the type name must be
    /// the caller's expected one. A failure message names the expected
    /// and the found value of the mismatching field.
    pub fn validate_against(
        &self,
        expected_scheme: &Vec<u8>,
        expected_producer: &Vec<u8>,
        expected_name: &Vec<u8>,
    ) -> (r: Result<(), String>)
        ensures
            r is Ok <==> spec_validate_against(
                self@,
                expected_scheme@,
                expected_producer@,
                expected_name@,
            ),
            r matches Err(m) ==> spec_validate_err_message(
                m@,
                self@,
                expected_scheme@,
                expected_producer@,
                expected_name@,
            ),
    {
        match self.versioning_mode {
            SerializationVersioningMode::Versioned => {
                if !bytes_eq(&self.versioning_version, expected_scheme) {
                    let mut m = String::from_str(
                        "On deserialization, expected versioning scheme version ",
                    );
                    let expected = bytes_to_string(expected_scheme);
                    m.append(expected.as_str());
                    m.append(", got version ");
                    let found = bytes_to_string(&self.versioning_version);
                    m.append(found.as_str());
                    return Err(m);
                }
            },
            SerializationVersioningMode::Unversioned => {
                if !bytes_eq(&self.versioning_version, expected_producer) {
                    let mut m = String::from_str("This ");
                    let name = bytes_to_string(&self.name);
                    m.append(name.as_str());
                    m.append(" has been saved from implementation version ");
                    let found = bytes_to_string(&self.versioning_version);
                    m.append(found.as_str());
                    m.append(
                        ", without versioning information; use the versioned serialization mode for backward compatibility",
                    );
                    return Err(m);
                }
            },
        }
        if !bytes_eq(&self.name, expected_name) {
            let mut m = String::from_str("On deserialization, expected type ");
            let expected = bytes_to_string(expected_name);
            m.append(expected.as_str());
            m.append(", got type ");
            let found = bytes_to_string(&self.name);
            m.append(found.as_str());
            return Err(m);
        }
        Ok(())
    }

    /// Checks the validity of the header for the running implementation
    /// and the expected type `T`.
    pub fn validate<T: Named>(&self) -> (r: Result<(), String>)
        ensures
            r is Ok <==> spec_validate(self@, T::spec_name()),
            r matches Err(m) ==> spec_validate_err_message(
                m@,
                self@,
                spec_versioning_version(),
                spec_crate_version(),
                T::spec_name(),
            ),
    {
        self.validate_against(
            &versioning_version_bytes(),
            &crate_version_bytes(),
            &T::name_bytes(),
        )
    }
}

/// What a failed header validation reports, per failing check: the
/// expected and the found value of the mismatching field, rendered one
/// character per byte when the embedded fields are ASCII.
pub open spec fn spec_validate_err_message(
    m: Seq<char>,
    h: SerializationHeaderView,
    expected_scheme: Seq<u8>,
    expected_producer: Seq<u8>,
    expected_name: Seq<u8>,
) -> bool {
    if h.versioning_mode is Versioned && h.versioning_version != expected_scheme {
        ascii_only(expected_scheme) && ascii_only(h.versioning_version) ==> m
            == "On deserialization, expected versioning scheme version "@ + ascii_chars(
            expected_scheme,
        ) + ", got version "@ + ascii_chars(h.versioning_version)
    } else if h.versioning_mode is Unversioned && h.versioning_version != expected_producer {
        ascii_only(h.name) && ascii_only(h.versioning_version) ==> m == "This "@ + ascii_chars(
            h.name,
        ) + " has been saved from implementation version "@ + ascii_chars(h.versioning_version)
            + ", without versioning information; use the versioned serialization mode for backward compatibility"@
    } else {
        ascii_only(expected_name) && ascii_only(h.name) ==> m
            == "On deserialization, expected type "@ + ascii_chars(expected_name) + ", got type "@
            + ascii_chars(h.name)
    }
}

/// The header a versioned encode writes: current scheme version under
/// `scheme`, the encoded type's name.
pub open spec fn spec_header_versioned(name: Seq<u8>, scheme: Seq<u8>) -> SerializationHeaderView {
    SerializationHeaderView {
        header_version: spec_serialization_version(),
        versioning_mode: SerializationVersioningMode::Versioned,
        versioning_version: scheme,
        name,
    }
}

/// The header an unversioned encode writes: the producing implementation's
/// version under `producer`, the encoded type's name.
pub open spec fn spec_header_unversioned(
    name: Seq<u8>,
    producer: Seq<u8>,
) -> SerializationHeaderView {
    SerializationHeaderView {
        header_version: spec_serialization_version(),
        versioning_mode: SerializationVersioningMode::Unversioned,
        versioning_version: producer,
        name,
    }
}

/// Header validity against explicit expectations.
pub open spec fn spec_validate_against(
    h: SerializationHeaderView,
    expected_scheme: Seq<u8>,
    expected_producer: Seq<u8>,
    expected_name: Seq<u8>,
) -> bool {
    &&& (h.versioning_mode is Versioned ==> h.versioning_version == expected_scheme)
    &&& (h.versioning_mode is Unversioned ==> h.versioning_version == expected_producer)
    &&& h.name == expected_name
}

/// Header validity for the running implementation.
pub open spec fn spec_validate(h: SerializationHeaderView, expected_name: Seq<u8>) -> bool {
    spec_validate_against(h, spec_versioning_version(), spec_crate_version(), expected_name)
}

/// An unversioned artifact written by one implementation version fails
/// header validation under any other implementation version.
pub proof fn lemma_unversioned_producer_drift(name: Seq<u8>, produced_by: Seq<u8>, validated_by: Seq<u8>)
    requires
        produced_by != validated_by,
    ensures
        !spec_validate_against(
            spec_header_unversioned(name, produced_by),
            spec_versioning_version(),
            validated_by,
            name,
        ),
{
}

/// A versioned artifact is unaffected by producer-version drift: it
/// validates under any implementation version that shares its versioning
/// scheme...
pub proof fn lemma_versioned_producer_drift_immune(
    name: Seq<u8>,
    scheme: Seq<u8>,
    validated_by: Seq<u8>,
)
    ensures
        spec_validate_against(spec_header_versioned(name, scheme), scheme, validated_by, name),
{
}

/// ...and fails exactly on versioning-scheme drift.
pub proof fn lemma_versioned_scheme_drift(
    name: Seq<u8>,
    scheme_a: Seq<u8>,
    scheme_b: Seq<u8>,
    validated_by: Seq<u8>,
)
    requires
        scheme_a != scheme_b,
    ensures
        !spec_validate_against(spec_header_versioned(name, scheme_a), scheme_b, validated_by, name),
{
}

/// A configuration used to serialize objects. It decides whether the
/// object is versioned and holds the max byte size of the written
/// payload; a limit of zero means no size check.
#[derive(Debug, Clone, Copy, PartialEq, Eq, Structural)]
pub struct SerializationConfig {
    pub versioned: SerializationVersioningMode,
    pub serialized_size_limit: u64,
}

/// The header a given serialization config writes for type name `name`.
pub open spec fn spec_create_header(
    versioned: SerializationVersioningMode,
    name: Seq<u8>,
) -> SerializationHeaderView {
    match versioned {
        SerializationVersioningMode::Versioned => spec_header_versioned(
            name,
            spec_versioning_version(),
        ),
        SerializationVersioningMode::Unversioned => spec_header_unversioned(
            name,
            spec_crate_version(),
        ),
    }
}

/// The payload bytes a config writes for abstract value `v`: the tagged
/// current shape when versioning is on, the raw value otherwise.
pub open spec fn spec_payload_encoding<T: Named + BinaryCodec + Versionize>(
    cfg: SerializationConfig,
    v: <T as View>::V,
) -> Seq<u8> where <T as Versionize>::Versioned: BinaryCodec {
    match cfg.versioned {
        SerializationVersioningMode::Versioned => <T::Versioned as BinaryCodec>::spec_encoding(
            T::spec_versionize(v),
        ),
        SerializationVersioningMode::Unversioned => T::spec_encoding(v),
    }
}

/// What serializing `v` under `cfg` writes: header bytes then payload
/// bytes — or nothing, exactly when a nonzero limit is exceeded by the
/// header (over its own fixed ceiling) or by the payload (over the
/// caller's limit).
pub open spec fn spec_serialize<T: Named + BinaryCodec + Versionize>(
    cfg: SerializationConfig,
    v: <T as View>::V,
) -> Option<Seq<u8>> where <T as Versionize>::Versioned: BinaryCodec {
    let h = header_encoding(spec_create_header(cfg.versioned, T::spec_name()));
    let p = spec_payload_encoding::<T>(cfg, v);
    if cfg.serialized_size_limit != 0 && (h.len() > HEADER_LENGTH_LIMIT || p.len()
        > cfg.serialized_size_limit) {
        None
    } else {
        Some(h + p)
    }
}

impl SerializationConfig {
    /// Creates a new serialization config. The default configuration
    /// serializes the object with versioning information for backward
    /// compatibility; `serialized_size_limit` bounds the payload bytes,
    /// excluding the header.
    pub fn new(serialized_size_limit: u64) -> (r: Self)
        ensures
            r.versioned == SerializationVersioningMode::Versioned,
            r.serialized_size_limit == serialized_size_limit,
    {
        SerializationConfig { versioned: SerializationVersioningMode::Versioned, serialized_size_limit }
    }

    /// Creates a new serialization config without any size check.
    pub fn new_with_unlimited_size() -> (r: Self)
        ensures
            r.versioned == SerializationVersioningMode::Versioned,
            r.serialized_size_limit == 0,
    {
        SerializationConfig { versioned: SerializationVersioningMode::Versioned, serialized_size_limit: 0 }
    }

    /// Disables the size limit for serialized objects.
    pub fn disable_size_limit(self) -> (r: Self)
        ensures
            r.versioned == self.versioned,
            r.serialized_size_limit == 0,
    {
        SerializationConfig { serialized_size_limit: 0, ..self }
    }

    /// Disables the versioning of serialized objects.
    pub fn disable_versioning(self) -> (r: Self)
        ensures
            r.versioned == SerializationVersioningMode::Unversioned,
            r.serialized_size_limit == self.serialized_size_limit,
    {
        SerializationConfig { versioned: SerializationVersioningMode::Unversioned, ..self }
    }

    /// Creates a serialization header based on the current config.
    pub fn create_header<T: Named>(&self) -> (r: SerializationHeader)
        ensures
            r@ == spec_create_header(self.versioned, T::spec_name()),
    {
        match self.versioned {
            SerializationVersioningMode::Versioned => SerializationHeader::new_versioned::<T>(),
            SerializationVersioningMode::Unversioned => SerializationHeader::new_unversioned::<T>(),
        }
    }

    /// Returns the max length of the serialized header.
    pub fn header_length_limit(&self) -> (r: u64)
        ensures
            r == (if self.serialized_size_limit == 0 {
                0u64
            } else {
                HEADER_LENGTH_LIMIT
            }),
    {
        if self.serialized_size_limit == 0 {
            0
        } else {
            HEADER_LENGTH_LIMIT
        }
    }

    /// Serializes an object into a byte buffer, based on the current
    /// config. The written bytes can be deserialized using
    /// [`DeserializationConfig::deserialize_from`]. Failure happens
    /// exactly when a nonzero limit is exceeded, and then nothing is
    /// written.
    pub fn serialize_into<T: Named + BinaryCodec + Versionize>(
        self,
        object: T,
        writer: &mut Vec<u8>,
    ) -> (r: Result<(), String>) where <T as Versionize>::Versioned: BinaryCodec
        ensures
            match r {
                Ok(_) => spec_serialize::<T>(self, object@) matches Some(bytes) && final(writer)@
                    == old(writer)@ + bytes,
                Err(_) => spec_serialize::<T>(self, object@) is None && final(writer)@ == old(
                    writer,
                )@,
            },
    {
        let ghost v = object@;
        let header = self.create_header::<T>();
        let mut hbuf: Vec<u8> = Vec::new();
        header.encode_into(&mut hbuf);
        if self.serialized_size_limit != 0 && hbuf.len() as u64 > HEADER_LENGTH_LIMIT {
            return Err("the serialized header exceeds the header size ceiling".to_owned());
        }
        let mut pbuf: Vec<u8> = Vec::new();
        match self.versioned {
            SerializationVersioningMode::Versioned => {
                let tagged = object.versionize();
                tagged.encode(&mut pbuf);
            },
            SerializationVersioningMode::Unversioned => {
                object.encode(&mut pbuf);
            },
        }
        if self.serialized_size_limit != 0 && pbuf.len() as u64 > self.serialized_size_limit {
            return Err("the serialized object exceeds the configured size limit".to_owned());
        }
        writer.append(&mut hbuf);
        writer.append(&mut pbuf);
        proof {
            assert(final(writer)@ =~= old(writer)@ + (header_encoding(
                spec_create_header(self.versioned, T::spec_name()),
            ) + spec_payload_encoding::<T>(self, v)));
        }
        Ok(())
    }
}

/// Tells if the deserialization should also check conformance.
#[derive(Debug, Clone, Copy)]
pub enum ConformanceMode<Params> {
    Checked(Params),
    Unchecked,
}

/// A configuration deciding the sanity checks performed during
/// deserialization: a payload size ceiling (zero meaning none), header
/// validation, and an optional conformance parameter set.
#[derive(Debug, Clone, Copy)]
pub struct DeserializationConfig<Params> {
    pub serialized_size_limit: u64,
    pub validate_header: bool,
    pub conformance: ConformanceMode<Params>,
}

/// What a failed conformance check reports: the decoded type's name in
/// the fixed running text, rendered one character per byte when the name
/// is ASCII.
pub open spec fn spec_conformance_err_message(m: Seq<char>, name: Seq<u8>) -> bool {
    ascii_only(name) ==> m == "Deserialized object of type "@ + ascii_chars(name)
        + " not conformant with given parameter set"@
}

/// The conformance gate of the decode pipeline: the decoded abstract
/// value passes through, unless a parameter set was supplied and the
/// value does not conform to it.
pub open spec fn spec_conform<T, Params>(
    cfg: DeserializationConfig<Params>,
    v: <T as View>::V,
) -> Option<<T as View>::V> where T: ParameterSetConformant<ParameterSet = Params> {
    match cfg.conformance {
        ConformanceMode::Checked(p) => if T::spec_is_conformant(v, p) {
            Some(v)
        } else {
            None
        },
        ConformanceMode::Unchecked => Some(v),
    }
}

/// What deserializing `b` under `cfg` yields, or nothing when any stage
/// fails: a nonzero limit not above the header ceiling (no payload budget
/// left); no header parse within the header ceiling; header validation;
/// no payload parse within the remaining budget; a failing upgrade; or a
/// failing conformance check.
pub open spec fn spec_deserialize<T, Params>(
    cfg: DeserializationConfig<Params>,
    b: Seq<u8>,
) -> Option<<T as View>::V> where
    T: Named + BinaryCodec + Versionize + ParameterSetConformant<ParameterSet = Params>,
    <T as Versionize>::Versioned: BinaryCodec,
 {
    if cfg.serialized_size_limit != 0 && cfg.serialized_size_limit <= HEADER_LENGTH_LIMIT {
        None
    } else {
        match parse_header(b) {
            None => None,
            Some((h, hn)) => if cfg.serialized_size_limit != 0 && hn > HEADER_LENGTH_LIMIT {
                None
            } else if cfg.validate_header && !spec_validate(h, T::spec_name()) {
                None
            } else {
                let budget: int = if cfg.serialized_size_limit == 0 {
                    0
                } else {
                    cfg.serialized_size_limit - HEADER_LENGTH_LIMIT
                };
                let rest = b.skip(hn);
                if h.versioning_mode is Versioned {
                    match <T::Versioned as BinaryCodec>::spec_parse(rest) {
                        None => None,
                        Some((w, n)) => if budget != 0 && n > budget {
                            None
                        } else {
                            match T::spec_unversionize(w) {
                                Some(v) => spec_conform::<T, Params>(cfg, v),
                                None => None,
                            }
                        },
                    }
                } else {
                    match T::spec_parse(rest) {
                        None => None,
                        Some((v, n)) => if budget != 0 && n > budget {
                            None
                        } else {
                            spec_conform::<T, Params>(cfg, v)
                        },
                    }
                }
            },
        }
    }
}

impl<Params: Copy> DeserializationConfig<Params> {
    /// Creates a new deserialization config. By default it validates the
    /// header (serialization scheme version and type name) and checks
    /// the decoded object against the given conformance parameter set;
    /// `serialized_size_limit` bounds the payload bytes, excluding the
    /// header.
    pub fn new(serialized_size_limit: u64, conformance_params: &Params) -> (r: Self)
        ensures
            r.serialized_size_limit == serialized_size_limit,
            r.validate_header,
            r.conformance matches ConformanceMode::Checked(p) && p == *conformance_params,
    {
        DeserializationConfig {
            serialized_size_limit,
            validate_header: true,
            conformance: ConformanceMode::Checked(*conformance_params),
        }
    }

    /// Creates a new config without any size limit for the deserialized
    /// objects.
    pub fn new_with_unlimited_size(conformance_params: &Params) -> (r: Self)
        ensures
            r.serialized_size_limit == 0,
            r.validate_header,
            r.conformance matches ConformanceMode::Checked(p) && p == *conformance_params,
    {
        DeserializationConfig {
            serialized_size_limit: 0,
            validate_header: true,
            conformance: ConformanceMode::Checked(*conformance_params),
        }
    }

    /// Disables the size limit for the serialized objects.
    pub fn disable_size_limit(self) -> (r: Self)
        ensures
            r.serialized_size_limit == 0,
            r.validate_header == self.validate_header,
            r.conformance == self.conformance,
    {
        DeserializationConfig { serialized_size_limit: 0, ..self }
    }

    /// Disables the header validation: the serialized object is no
    /// longer checked to be the expected type written by a compatible
    /// implementation.
    pub fn disable_header_validation(self) -> (r: Self)
        ensures
            r.serialized_size_limit == self.serialized_size_limit,
            !r.validate_header,
            r.conformance == self.conformance,
    {
        DeserializationConfig { validate_header: false, ..self }
    }

    /// Creates a config with conformance checks disabled.
    pub fn new_without_conformance(serialized_size_limit: u64) -> (r: Self)
        ensures
            r.serialized_size_limit == serialized_size_limit,
            r.validate_header,
            r.conformance is Unchecked,
    {
        DeserializationConfig {
            serialized_size_limit,
            validate_header: true,
            conformance: ConformanceMode::Unchecked,
        }
    }

    /// Disables the conformance check on an existing config.
    pub fn disable_conformance_check(self) -> (r: Self)
        ensures
            r.serialized_size_limit == self.serialized_size_limit,
            r.validate_header == self.validate_header,
            r.conformance is Unchecked,
    {
        DeserializationConfig { conformance: ConformanceMode::Unchecked, ..self }
    }

    /// Creates a new config without any sanity check.
    pub fn new_unsafe() -> (r: Self)
        ensures
            r.serialized_size_limit == 0,
            !r.validate_header,
            r.conformance is Unchecked,
    {
        DeserializationConfig {
            serialized_size_limit: 0,
            validate_header: false,
            conformance: ConformanceMode::Unchecked,
        }
    }

    /// Returns the max length of the serialized header.
    pub fn header_length_limit(&self) -> (r: u64)
        ensures
            r == (if self.serialized_size_limit == 0 {
                0u64
            } else {
                HEADER_LENGTH_LIMIT
            }),
    {
        if self.serialized_size_limit == 0 {
            0
        } else {
            HEADER_LENGTH_LIMIT
        }
    }

    /// Deserializes an object serialized by
    /// [`SerializationConfig::serialize_into`], performing the sanity
    /// checks the config asks for: header ceiling, header validation,
    /// payload budget, upgrade chain, conformance. Trailing bytes after
    /// the payload are ignored. When header validation is the failing
    /// stage, the message reports the expected and found values of the
    /// mismatching field; when conformance is, it names the decoded type.
    #[verifier::rlimit(80)]
    pub fn deserialize_from<T>(self, bytes: &[u8]) -> (r: Result<T, String>) where
        T: Named + BinaryCodec + Versionize + ParameterSetConformant<ParameterSet = Params>,
        <T as Versionize>::Versioned: BinaryCodec,

        ensures
            match r {
                Ok(x) => spec_deserialize::<T, Params>(self, bytes@) == Some(x@),
                Err(_) => spec_deserialize::<T, Params>(self, bytes@) is None,
            },
            !(self.serialized_size_limit != 0 && self.serialized_size_limit
                <= HEADER_LENGTH_LIMIT) ==> (parse_header(bytes@) matches Some((h, hn)) ==> ((
            self.serialized_size_limit == 0 || hn <= HEADER_LENGTH_LIMIT) && self.validate_header
                && !spec_validate(h, T::spec_name()) ==> (r matches Err(m)
                && spec_validate_err_message(
                m@,
                h,
                spec_versioning_version(),
                spec_crate_version(),
                T::spec_name(),
            )))),
            (spec_deserialize::<T, Params>(
                DeserializationConfig { conformance: ConformanceMode::Unchecked, ..self },
                bytes@,
            ) matches Some(v) && self.conformance matches ConformanceMode::Checked(p)
                && !T::spec_is_conformant(v, p)) ==> (r matches Err(m)
                && spec_conformance_err_message(m@, T::spec_name())),
    {
        if self.serialized_size_limit != 0 && self.serialized_size_limit <= HEADER_LENGTH_LIMIT {
            return Err(
                "the size limit leaves no payload budget below the header ceiling".to_owned(),
            );
        }
        proof {
            assert(bytes@.skip(0) =~= bytes@);
        }
        let (header, hpos) = match SerializationHeader::decode_from(
            bytes,
            0,
            self.header_length_limit(),
        ) {
            Ok(p) => p,
            Err(_) => {
                return Err("failed to decode the serialization header".to_owned());
            },
        };
        if self.validate_header {
            match header.validate::<T>() {
                Ok(_) => (),
                Err(e) => {
                    return Err(e);
                },
            }
        }
        let budget: u64 = if self.serialized_size_limit == 0 {
            0
        } else {
            self.serialized_size_limit - HEADER_LENGTH_LIMIT
        };
        let deser: T = match header.versioning_mode {
            SerializationVersioningMode::Versioned => {
                let tagged = match <T::Versioned as BinaryCodec>::decode(bytes, hpos, budget) {
                    Ok(p) => p.0,
                    Err(_) => {
                        return Err("failed to decode the versioned payload".to_owned());
                    },
                };
                match T::unversionize(tagged) {
                    Ok(x) => x,
                    Err(e) => {
                        return Err(e);
                    },
                }
            },
            SerializationVersioningMode::Unversioned => {
                match T::decode(bytes, hpos, budget) {
                    Ok(p) => p.0,
                    Err(_) => {
                        return Err("failed to decode the payload".to_owned());
                    },
                }
            },
        };
        if let ConformanceMode::Checked(parameter_set) = self.conformance {
            if !deser.is_conformant(&parameter_set) {
                let mut m = String::from_str("Deserialized object of type ");
                let name = bytes_to_string(&T::name_bytes());
                m.append(name.as_str());
                m.append(" not conformant with given parameter set");
                return Err(m);
            }
        }
        Ok(deser)
    }
}

/// Round trip through the envelope: bytes written for a value under one
/// config decode back to exactly that value, under any read config whose
/// limits accommodate them, whose conformance set (if any) the value
/// meets, and for the same type. Trailing bytes are ignored.
#[verifier::rlimit(80)]
pub proof fn lemma_envelope_round_trip<T, Params>(
    wcfg: SerializationConfig,
    rcfg: DeserializationConfig<Params>,
    v: <T as View>::V,
    bytes: Seq<u8>,
    extra: Seq<u8>,
) where
    T: Named + BinaryCodec + Versionize + ParameterSetConformant<ParameterSet = Params>,
    <T as Versionize>::Versioned: BinaryCodec,

    requires
        T::spec_valid(v),
        wcfg.versioned is Versioned ==> <T::Versioned as BinaryCodec>::spec_valid(
            T::spec_versionize(v),
        ),
        spec_serialize::<T>(wcfg, v) == Some(bytes),
        rcfg.serialized_size_limit == 0 || {
            &&& rcfg.serialized_size_limit > HEADER_LENGTH_LIMIT
            &&& header_encoding(spec_create_header(wcfg.versioned, T::spec_name())).len()
                <= HEADER_LENGTH_LIMIT
            &&& spec_payload_encoding::<T>(wcfg, v).len() <= rcfg.serialized_size_limit
                - HEADER_LENGTH_LIMIT
        },
        rcfg.conformance matches ConformanceMode::Checked(p) ==> T::spec_is_conformant(v, p),
    ensures
        spec_deserialize::<T, Params>(rcfg, bytes + extra) == Some(v),
{
    let hd = spec_create_header(wcfg.versioned, T::spec_name());
    let h = header_encoding(hd);
    let p = spec_payload_encoding::<T>(wcfg, v);
    let b = bytes + extra;
    lemma_version_lens();
    T::lemma_name_len();
    assert(header_wf(hd));
    assert(bytes == h + p);
    assert(b.take(h.len() as int) =~= h);
    lemma_parse_header_complete(hd, b);
    let rest = b.skip(h.len() as int);
    assert(rest.take(p.len() as int) =~= p);
    if wcfg.versioned is Versioned {
        <T::Versioned as BinaryCodec>::lemma_parse_complete(T::spec_versionize(v), rest);
        T::versionize_unversionize(v);
    } else {
        T::lemma_parse_complete(v, rest);
    }
    assert(spec_validate(hd, T::spec_name()));
}

/// Header integrity, rejection half: bytes written for type `T` are
/// refused when the caller decodes them as any type with another name,
/// as long as header validation is on.
pub proof fn lemma_wrong_type_rejected<T, U, ParamsT, ParamsU>(
    wcfg: SerializationConfig,
    rcfg: DeserializationConfig<ParamsU>,
    v: <T as View>::V,
    bytes: Seq<u8>,
    extra: Seq<u8>,
) where
    T: Named + BinaryCodec + Versionize + ParameterSetConformant<ParameterSet = ParamsT>,
    <T as Versionize>::Versioned: BinaryCodec,
    U: Named + BinaryCodec + Versionize + ParameterSetConformant<ParameterSet = ParamsU>,
    <U as Versionize>::Versioned: BinaryCodec,

    requires
        spec_serialize::<T>(wcfg, v) == Some(bytes),
        rcfg.validate_header,
        T::spec_name() != U::spec_name(),
    ensures
        spec_deserialize::<U, ParamsU>(rcfg, bytes + extra) is None,
{
    let hd = spec_create_header(wcfg.versioned, T::spec_name());
    let h = header_encoding(hd);
    let b = bytes + extra;
    lemma_version_lens();
    T::lemma_name_len();
    assert(header_wf(hd));
    assert(b.take(h.len() as int) =~= h);
    lemma_parse_header_complete(hd, b);
    assert(!spec_validate(hd, U::spec_name()));
}

/// Size enforcement at encode: a payload over a nonzero limit always
/// fails, and nothing is written.
pub proof fn lemma_size_limit_encode<T>(cfg: SerializationConfig, v: <T as View>::V) where
    T: Named + BinaryCodec + Versionize,
    <T as Versionize>::Versioned: BinaryCodec,

    requires
        cfg.serialized_size_limit != 0,
        spec_payload_encoding::<T>(cfg, v).len() > cfg.serialized_size_limit,
    ensures
        spec_serialize::<T>(cfg, v) is None,
{
}

/// Size enforcement at decode: under a nonzero limit, an artifact whose
/// payload exceeds the remaining budget by at least one byte is refused.
#[verifier::rlimit(100)]
pub proof fn lemma_size_limit_decode<T, Params>(
    wcfg: SerializationConfig,
    rcfg: DeserializationConfig<Params>,
    v: <T as View>::V,
    bytes: Seq<u8>,
    extra: Seq<u8>,
) where
    T: Named + BinaryCodec + Versionize + ParameterSetConformant<ParameterSet = Params>,
    <T as Versionize>::Versioned: BinaryCodec,

    requires
        T::spec_valid(v),
        wcfg.versioned is Versioned ==> <T::Versioned as BinaryCodec>::spec_valid(
            T::spec_versionize(v),
        ),
        spec_serialize::<T>(wcfg, v) == Some(bytes),
        rcfg.serialized_size_limit != 0,
        spec_payload_encoding::<T>(wcfg, v).len() > rcfg.serialized_size_limit
            - HEADER_LENGTH_LIMIT,
    ensures
        spec_deserialize::<T, Params>(rcfg, bytes + extra) is None,
{
    if rcfg.serialized_size_limit > HEADER_LENGTH_LIMIT {
        let hd = spec_create_header(wcfg.versioned, T::spec_name());
        let h = header_encoding(hd);
        let p = spec_payload_encoding::<T>(wcfg, v);
        let b = bytes + extra;
        lemma_version_lens();
        T::lemma_name_len();
        assert(header_wf(hd));
        assert(b.take(h.len() as int) =~= h);
        lemma_parse_header_complete(hd, b);
        let rest = b.skip(h.len() as int);
        assert(rest.take(p.len() as int) =~= p);
        if wcfg.versioned is Versioned {
            <T::Versioned as BinaryCodec>::lemma_parse_complete(T::spec_versionize(v), rest);
        } else {
            T::lemma_parse_complete(v, rest);
        }
    }
}

} // verus!
