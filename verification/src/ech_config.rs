//! ECHConfigList parsing and validation.
//!
//! Wire form: a 2-byte big-endian total length followed by one or more
//! records `{u16 version; u16 length; opaque contents[length]}`. The one
//! version this client accepts is draft-18 (`0xfe0d`). Record contents are
//! never interpreted here; they are handed raw to the TLS engine.

use vstd::prelude::*;

use crate::errors::Error;
use crate::net::spec_u16_from_be;
use crate::ECH_VERSION_DRAFT18;

verus! {

/// One parsed ECHConfig record.
#[derive(Debug, Clone)]
pub struct EchConfig {
    /// The record's version field.
    pub version: u16,
    /// The whole record (version, length and contents), kept raw for the
    /// TLS engine.
    pub raw: Vec<u8>,
}

/// Mathematical model of one ECHConfig record.
pub ghost struct EchConfigView {
    pub version: u16,
    pub raw: Seq<u8>,
}

impl View for EchConfig {
    type V = EchConfigView;

    open spec fn view(&self) -> EchConfigView {
        EchConfigView { version: self.version, raw: self.raw@ }
    }
}

impl DeepView for EchConfig {
    type V = EchConfigView;

    open spec fn deep_view(&self) -> EchConfigView {
        self@
    }
}

/// The records encoded in `bytes[offset..end]`, or `None` if that region is
/// not a whole number of well-formed records.
pub open spec fn spec_parse_records(bytes: Seq<u8>, offset: int, end: int) -> Option<
    Seq<EchConfigView>,
>
    decreases end - offset,
{
    if offset >= end {
        Some(Seq::empty())
    } else if offset + 4 > end {
        None
    } else {
        let version = spec_u16_from_be(bytes[offset], bytes[offset + 1]);
        let clen = spec_u16_from_be(bytes[offset + 2], bytes[offset + 3]) as int;
        if offset + 4 + clen > end {
            None
        } else {
            match spec_parse_records(bytes, offset + 4 + clen, end) {
                None => None,
                Some(rest) => Some(
                    seq![
                        EchConfigView { version, raw: bytes.subrange(offset, offset + 4 + clen) },
                    ] + rest,
                ),
            }
        }
    }
}

/// The list of records of a whole ECHConfigList, or `None` where the
/// declared length does not equal the byte count minus two, a record is
/// truncated, or the list holds no record at all.
pub open spec fn spec_parse_config_list(bytes: Seq<u8>) -> Option<Seq<EchConfigView>> {
    if bytes.len() < 2 {
        None
    } else {
        let total = spec_u16_from_be(bytes[0], bytes[1]) as int;
        if bytes.len() != 2 + total {
            None
        } else {
            match spec_parse_records(bytes, 2, 2 + total) {
                None => None,
                Some(cfgs) => if cfgs.len() == 0 {
                    None
                } else {
                    Some(cfgs)
                },
            }
        }
    }
}

/// Parse an ECHConfigList into its records.
///
/// The declared total length must equal the byte count minus two; the
/// region must be a whole number of records, at least one. Returns every
/// record, raw bytes included, and fails with `Error::Ech` exactly on the
/// inputs the grammar refuses.
pub fn parse_ech_config_list(bytes: &[u8]) -> (r: Result<Vec<EchConfig>, Error>)
    ensures
        r is Ok <==> spec_parse_config_list(bytes@) is Some,
        r matches Ok(cfgs) ==> Some(cfgs.deep_view()) == spec_parse_config_list(bytes@),
        r matches Err(e) ==> e == Error::Ech,
{
    if bytes.len() < 2 {
        return Err(Error::Ech);
    }
    let total_len = crate::net::u16_from_be(bytes[0], bytes[1]) as usize;
    if bytes.len() != 2 + total_len {
        return Err(Error::Ech);
    }
    let ghost end_g: int = 2 + total_len as int;
    let mut configs: Vec<EchConfig> = Vec::new();
    let mut offset: usize = 2;
    let end: usize = 2 + total_len;
    while offset < end
        invariant
            2 <= offset <= end,
            end == end_g,
            end <= bytes@.len(),
            end == 2 + spec_u16_from_be(bytes@[0], bytes@[1]),
            bytes@.len() >= 2,
            match spec_parse_records(bytes@, offset as int, end_g) {
                Some(rest) => spec_parse_records(bytes@, 2, end_g) == Some(
                    configs.deep_view() + rest,
                ),
                None => spec_parse_records(bytes@, 2, end_g) is None,
            },
        decreases end - offset,
    {
        if offset + 4 > end {
            proof {
                assert(spec_parse_records(bytes@, offset as int, end_g) is None);
            }
            return Err(Error::Ech);
        }
        let version = crate::net::u16_from_be(bytes[offset], bytes[offset + 1]);
        let config_len = crate::net::u16_from_be(bytes[offset + 2], bytes[offset + 3]) as usize;
        if config_len > end - offset - 4 {
            proof {
                assert(spec_parse_records(bytes@, offset as int, end_g) is None);
            }
            return Err(Error::Ech);
        }
        let config_end: usize = offset + 4 + config_len;
        let raw_slice: &[u8] = vstd::slice::slice_subrange(bytes, offset, config_end);
        let raw: Vec<u8> = vstd::slice::slice_to_vec(raw_slice);
        let cfg = EchConfig { version, raw };
        proof {
            assert(cfg@.raw =~= bytes@.subrange(offset as int, config_end as int));
        }
        configs.push(cfg);
        proof {
            assert(spec_parse_records(bytes@, offset as int, end_g) == match spec_parse_records(
                bytes@,
                config_end as int,
                end_g,
            ) {
                None => None::<Seq<EchConfigView>>,
                Some(rest) => Some(
                    seq![
                        EchConfigView {
                            version,
                            raw: bytes@.subrange(offset as int, config_end as int),
                        },
                    ] + rest,
                ),
            });
            match spec_parse_records(bytes@, config_end as int, end_g) {
                Some(rest) => {
                    assert(configs.deep_view() + rest =~= configs.deep_view().drop_last() + (seq![
                        EchConfigView {
                            version,
                            raw: bytes@.subrange(offset as int, config_end as int),
                        },
                    ] + rest));
                },
                None => {},
            }
        }
        offset = config_end;
    }
    if configs.len() == 0 {
        proof {
            assert(spec_parse_records(bytes@, offset as int, end_g) == Some(
                Seq::<EchConfigView>::empty(),
            ));
            assert(configs.deep_view() + Seq::<EchConfigView>::empty() =~= configs.deep_view());
        }
        return Err(Error::Ech);
    }
    proof {
        assert(spec_parse_records(bytes@, offset as int, end_g) == Some(
            Seq::<EchConfigView>::empty(),
        ));
        assert(configs.deep_view() + Seq::<EchConfigView>::empty() =~= configs.deep_view());
    }
    Ok(configs)
}

/// The first draft-18 record's raw bytes, if any record has that version.
pub open spec fn spec_first_draft18(cfgs: Seq<EchConfigView>) -> Option<Seq<u8>>
    decreases cfgs.len(),
{
    if cfgs.len() == 0 {
        None
    } else if cfgs[0].version == ECH_VERSION_DRAFT18 {
        Some(cfgs[0].raw)
    } else {
        spec_first_draft18(cfgs.drop_first())
    }
}

/// The record `parse_ech_config` must return for a parsed list: the first
/// draft-18 record, else the first record.
pub open spec fn spec_selected_config(cfgs: Seq<EchConfigView>) -> Seq<u8>
    recommends
        cfgs.len() > 0,
{
    match spec_first_draft18(cfgs) {
        Some(raw) => raw,
        None => cfgs[0].raw,
    }
}

/// Parse an ECHConfigList and pick the record to hand to the TLS engine:
/// the first draft-18 record if one exists, otherwise the first record.
pub fn parse_ech_config(bytes: &[u8]) -> (r: Result<Vec<u8>, Error>)
    ensures
        r is Ok <==> (bytes@.len() > 0 && spec_parse_config_list(bytes@) is Some),
        r matches Ok(raw) ==> raw@ == spec_selected_config(spec_parse_config_list(bytes@)->Some_0),
        r matches Err(e) ==> e == Error::Ech,
{
    if bytes.len() == 0 {
        return Err(Error::Ech);
    }
    let configs = parse_ech_config_list(bytes)?;
    let ghost cfgs = configs.deep_view();
    proof {
        assert(cfgs.skip(0) =~= cfgs);
    }
    let n = configs.len();
    let mut i: usize = 0;
    while i < n
        invariant
            0 <= i <= n,
            n == configs.len(),
            Some(cfgs) == spec_parse_config_list(bytes@),
            cfgs == configs.deep_view(),
            cfgs.len() > 0,
            spec_first_draft18(cfgs) == spec_first_draft18(cfgs.skip(i as int)),
            forall|j: int| 0 <= j < i ==> cfgs[j].version != ECH_VERSION_DRAFT18,
        decreases n - i,
    {
        if configs[i].version == ECH_VERSION_DRAFT18 {
            proof {
                assert(cfgs.skip(i as int)[0] == cfgs[i as int]);
                assert(spec_first_draft18(cfgs.skip(i as int)) == Some(cfgs[i as int].raw));
            }
            return Ok(configs[i].raw.clone());
        }
        proof {
            assert(cfgs.skip(i as int)[0] == cfgs[i as int]);
            assert(cfgs.skip(i as int).drop_first() =~= cfgs.skip(i as int + 1));
        }
        i = i + 1;
    }
    proof {
        assert(cfgs.skip(n as int) =~= Seq::<EchConfigView>::empty());
        assert(spec_first_draft18(cfgs) is None);
    }
    Ok(configs[0].raw.clone())
}

/// Whether `bytes` is exactly one well-formed draft-18 ECHConfig record:
/// a 4-byte header whose declared length matches, with version `0xfe0d`.
pub open spec fn spec_valid_single_config(bytes: Seq<u8>) -> bool {
    &&& bytes.len() >= 4
    &&& bytes.len() == 4 + spec_u16_from_be(bytes[2], bytes[3])
    &&& spec_u16_from_be(bytes[0], bytes[1]) == ECH_VERSION_DRAFT18
}

/// Check one raw ECHConfig record: its declared length must match the byte
/// count and its version must be draft-18. Never fails; malformed input is
/// reported as `Ok(false)`.
pub fn validate_ech_config(bytes: &[u8]) -> (r: Result<bool, Error>)
    ensures
        r matches Ok(b) && b == spec_valid_single_config(bytes@),
{
    if bytes.len() < 4 {
        return Ok(false);
    }
    let version = crate::net::u16_from_be(bytes[0], bytes[1]);
    let length = crate::net::u16_from_be(bytes[2], bytes[3]) as usize;
    if bytes.len() != 4 + length {
        return Ok(false);
    }
    Ok(version == ECH_VERSION_DRAFT18)
}

} // verus!
