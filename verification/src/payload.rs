//! Management request / reply payloads and their wire codecs.
//!
//! Every fixed-size payload decodes exactly: an input shorter than the
//! payload is `Truncated`, a longer one is `Invalid`, so trailing bytes are
//! always rejected.
use vstd::prelude::*;

use crate::wire::{
    lemma_be_u16_digits, lemma_be_u16_value, lemma_be_u32_value,
    be_u16, be_u16_at, be_u32, be_u32_at, encode_outcome, exact_len, get_u16, get_u32,
    lemma_read_u16_in, lemma_read_u32_in, lemma_splice_concat, lemma_splice_empty, lemma_u16_image_at, lemma_u32_image_at, lemma_u32_from_window, lemma_u16_from_window,
    put_u16, put_u32, put_u8, require_exact_len, splice, CodecError,
};

verus! {

/// Largest code chunk a single `LoadChunk` may carry.
pub const LOAD_CHUNK_MAX: usize = 1024;

/// Errors that can occur during the management session.
#[derive(Clone, Copy, Debug, PartialEq, Eq)]
pub enum MgmtError {
    InvalidSlot(u8),
    InvalidTransition,
    ChunkOutOfOrder { expected: u32, got: u32 },
    ChunkTooLarge { remaining: u32, provided: u32 },
    LoaderNotFinalised,
    NoStagedImage,
    NoActiveImage,
    NoPreviousImage,
    CapabilityMismatch,
    ObserveUnavailable,
    HostInstallFailed,
    HostUninstallFailed,
    StreamEnded,
}

/// Length of the wire image of a management error with the given tag, for
/// the tags that name one.
pub open spec fn mgmt_error_len(tag: u8) -> Option<int> {
    if tag == 0 {
        Some(2)
    } else if tag == 1 {
        Some(1)
    } else if tag == 2 || tag == 3 {
        Some(9)
    } else if 4 <= tag <= 12 {
        Some(1)
    } else {
        None
    }
}

impl MgmtError {
    /// Wire image: a tag byte, then the variant's fields (integers
    /// big-endian).
    pub open spec fn wire_bytes(self) -> Seq<u8> {
        match self {
            MgmtError::InvalidSlot(slot) => seq![0u8, slot],
            MgmtError::InvalidTransition => seq![1u8],
            MgmtError::ChunkOutOfOrder { expected, got } => seq![2u8] + be_u32(expected) + be_u32(
                got,
            ),
            MgmtError::ChunkTooLarge { remaining, provided } => seq![3u8] + be_u32(remaining)
                + be_u32(provided),
            MgmtError::LoaderNotFinalised => seq![4u8],
            MgmtError::NoStagedImage => seq![5u8],
            MgmtError::NoActiveImage => seq![6u8],
            MgmtError::NoPreviousImage => seq![7u8],
            MgmtError::CapabilityMismatch => seq![8u8],
            MgmtError::ObserveUnavailable => seq![9u8],
            MgmtError::HostInstallFailed => seq![10u8],
            MgmtError::HostUninstallFailed => seq![11u8],
            MgmtError::StreamEnded => seq![12u8],
        }
    }

    /// The error named by a well-sized image whose tag is known.
    pub open spec fn read(s: Seq<u8>) -> MgmtError {
        let tag = s[0];
        if tag == 0 {
            MgmtError::InvalidSlot(s[1])
        } else if tag == 1 {
            MgmtError::InvalidTransition
        } else if tag == 2 {
            MgmtError::ChunkOutOfOrder { expected: be_u32_at(s, 1), got: be_u32_at(s, 5) }
        } else if tag == 3 {
            MgmtError::ChunkTooLarge { remaining: be_u32_at(s, 1), provided: be_u32_at(s, 5) }
        } else if tag == 4 {
            MgmtError::LoaderNotFinalised
        } else if tag == 5 {
            MgmtError::NoStagedImage
        } else if tag == 6 {
            MgmtError::NoActiveImage
        } else if tag == 7 {
            MgmtError::NoPreviousImage
        } else if tag == 8 {
            MgmtError::CapabilityMismatch
        } else if tag == 9 {
            MgmtError::ObserveUnavailable
        } else if tag == 10 {
            MgmtError::HostInstallFailed
        } else if tag == 11 {
            MgmtError::HostUninstallFailed
        } else {
            MgmtError::StreamEnded
        }
    }

    /// Exact decoding of a management error: empty input is truncated, an
    /// unknown tag is invalid, and the length must be exactly the tag's.
    pub open spec fn parse(s: Seq<u8>) -> Result<MgmtError, CodecError> {
        if s.len() == 0 {
            Err(CodecError::Truncated)
        } else {
            match mgmt_error_len(s[0]) {
                None => Err(CodecError::Invalid("unknown management error tag")),
                Some(n) => match exact_len(s.len() as int, n, "trailing bytes after MgmtError") {
                    Err(e) => Err(e),
                    Ok(_) => Ok(MgmtError::read(s)),
                },
            }
        }
    }

    pub fn encoded_len(&self) -> (r: Option<usize>)
        ensures
            r == Some(self.wire_bytes().len() as usize),
    {
        Some(
            match self {
                MgmtError::InvalidSlot(_) => 2,
                MgmtError::ChunkOutOfOrder { .. } => 9,
                MgmtError::ChunkTooLarge { .. } => 9,
                _ => 1,
            },
        )
    }

    pub fn encode_into(&self, out: &mut [u8]) -> (r: Result<usize, CodecError>)
        ensures
            encode_outcome(self.wire_bytes(), old(out)@, final(out)@, r),
    {
        let need = match self.encoded_len() {
            Some(n) => n,
            None => 1,
        };
        if out.len() < need {
            return Err(CodecError::Truncated);
        }
        let ghost s0 = out@;
        match self {
            MgmtError::InvalidSlot(slot) => {
                put_u8(out, 0, 0);
                put_u8(out, 1, *slot);
                proof {
                    lemma_splice_concat(s0, 0, seq![0u8], seq![*slot]);
                    assert(seq![0u8] + seq![*slot] =~= seq![0u8, *slot]);
                }
            },
            MgmtError::InvalidTransition => put_u8(out, 0, 1),
            MgmtError::ChunkOutOfOrder { expected, got } => {
                put_u8(out, 0, 2);
                put_u32(out, 1, *expected);
                put_u32(out, 5, *got);
                proof {
                    lemma_splice_concat(s0, 0, seq![2u8], be_u32(*expected));
                    lemma_splice_concat(s0, 0, seq![2u8] + be_u32(*expected), be_u32(*got));
                }
            },
            MgmtError::ChunkTooLarge { remaining, provided } => {
                put_u8(out, 0, 3);
                put_u32(out, 1, *remaining);
                put_u32(out, 5, *provided);
                proof {
                    lemma_splice_concat(s0, 0, seq![3u8], be_u32(*remaining));
                    lemma_splice_concat(s0, 0, seq![3u8] + be_u32(*remaining), be_u32(*provided));
                }
            },
            MgmtError::LoaderNotFinalised => put_u8(out, 0, 4),
            MgmtError::NoStagedImage => put_u8(out, 0, 5),
            MgmtError::NoActiveImage => put_u8(out, 0, 6),
            MgmtError::NoPreviousImage => put_u8(out, 0, 7),
            MgmtError::CapabilityMismatch => put_u8(out, 0, 8),
            MgmtError::ObserveUnavailable => put_u8(out, 0, 9),
            MgmtError::HostInstallFailed => put_u8(out, 0, 10),
            MgmtError::HostUninstallFailed => put_u8(out, 0, 11),
            MgmtError::StreamEnded => put_u8(out, 0, 12),
        }
        Ok(need)
    }

    pub fn decode_payload(input: &[u8]) -> (r: Result<MgmtError, CodecError>)
        ensures
            r == MgmtError::parse(input@),
    {
        if input.len() == 0 {
            return Err(CodecError::Truncated);
        }
        let expected: usize = match input[0] {
            0 => 2,
            1 => 1,
            2 | 3 => 9,
            4..=12 => 1,
            _ => return Err(CodecError::Invalid("unknown management error tag")),
        };
        match require_exact_len(input.len(), expected, "trailing bytes after MgmtError") {
            Err(e) => return Err(e),
            Ok(()) => {},
        }
        match input[0] {
            0 => Ok(MgmtError::InvalidSlot(input[1])),
            1 => Ok(MgmtError::InvalidTransition),
            2 => Ok(MgmtError::ChunkOutOfOrder { expected: get_u32(input, 1), got: get_u32(input, 5) }),
            3 => Ok(
                MgmtError::ChunkTooLarge { remaining: get_u32(input, 1), provided: get_u32(input, 5) },
            ),
            4 => Ok(MgmtError::LoaderNotFinalised),
            5 => Ok(MgmtError::NoStagedImage),
            6 => Ok(MgmtError::NoActiveImage),
            7 => Ok(MgmtError::NoPreviousImage),
            8 => Ok(MgmtError::CapabilityMismatch),
            9 => Ok(MgmtError::ObserveUnavailable),
            10 => Ok(MgmtError::HostInstallFailed),
            11 => Ok(MgmtError::HostUninstallFailed),
            12 => Ok(MgmtError::StreamEnded),
            _ => Err(CodecError::Invalid("unknown management error tag")),
        }
    }
}

/// What the management session learns from a failed image loader step.
#[derive(Clone, Copy, Debug, PartialEq, Eq)]
pub enum LoaderFault {
    AlreadyLoading,
    NotLoading,
    CodeTooLarge { declared: usize },
    UnexpectedOffset { expected: u32, got: u32 },
    ChunkTooLarge { remaining: u32, provided: u32 },
    HashMismatch,
    Verify,
}

/// What the management session learns from a failed host install step.
#[derive(Clone, Copy, Debug, PartialEq, Eq)]
pub enum HostFault {
    SlotOccupied,
    SlotEmpty,
    InvalidFuel,
    ScratchTooSmall,
    ScratchTooLarge,
    Verify,
}

/// A rejected image: verification of the staged code failed.
#[derive(Clone, Copy, Debug, PartialEq, Eq)]
pub struct VerifyFault;

/// The management error a loader failure is reported as.
pub open spec fn loader_fault_error(err: LoaderFault) -> MgmtError {
    match err {
        LoaderFault::AlreadyLoading => MgmtError::InvalidTransition,
        LoaderFault::NotLoading => MgmtError::InvalidTransition,
        LoaderFault::CodeTooLarge { declared } => MgmtError::ChunkTooLarge {
            remaining: 0,
            provided: declared as u32,
        },
        LoaderFault::UnexpectedOffset { expected, got } => MgmtError::ChunkOutOfOrder {
            expected,
            got,
        },
        LoaderFault::ChunkTooLarge { remaining, provided } => MgmtError::ChunkTooLarge {
            remaining,
            provided,
        },
        LoaderFault::HashMismatch => MgmtError::LoaderNotFinalised,
        LoaderFault::Verify => MgmtError::LoaderNotFinalised,
    }
}

/// The management error a host failure is reported as.
pub open spec fn host_fault_error(err: HostFault) -> MgmtError {
    match err {
        HostFault::SlotOccupied => MgmtError::InvalidTransition,
        HostFault::SlotEmpty => MgmtError::HostUninstallFailed,
        HostFault::InvalidFuel => MgmtError::HostInstallFailed,
        HostFault::ScratchTooSmall => MgmtError::HostInstallFailed,
        HostFault::ScratchTooLarge => MgmtError::HostInstallFailed,
        HostFault::Verify => MgmtError::HostInstallFailed,
    }
}

impl From<LoaderFault> for MgmtError {
    fn from(err: LoaderFault) -> (r: MgmtError) {
        match err {
            LoaderFault::AlreadyLoading => MgmtError::InvalidTransition,
            LoaderFault::NotLoading => MgmtError::InvalidTransition,
            LoaderFault::CodeTooLarge { declared } => MgmtError::ChunkTooLarge {
                remaining: 0,
                provided: declared as u32,
            },
            LoaderFault::UnexpectedOffset { expected, got } => MgmtError::ChunkOutOfOrder {
                expected,
                got,
            },
            LoaderFault::ChunkTooLarge { remaining, provided } => MgmtError::ChunkTooLarge {
                remaining,
                provided,
            },
            LoaderFault::HashMismatch => MgmtError::LoaderNotFinalised,
            LoaderFault::Verify => MgmtError::from(VerifyFault),
        }
    }
}

impl vstd::std_specs::convert::FromSpecImpl<LoaderFault> for MgmtError {
    open spec fn obeys_from_spec() -> bool {
        true
    }

    open spec fn from_spec(err: LoaderFault) -> MgmtError {
        loader_fault_error(err)
    }
}

impl From<VerifyFault> for MgmtError {
    fn from(err: VerifyFault) -> (r: MgmtError) {
        MgmtError::LoaderNotFinalised
    }
}

impl vstd::std_specs::convert::FromSpecImpl<VerifyFault> for MgmtError {
    open spec fn obeys_from_spec() -> bool {
        true
    }

    open spec fn from_spec(err: VerifyFault) -> MgmtError {
        MgmtError::LoaderNotFinalised
    }
}

impl From<HostFault> for MgmtError {
    fn from(err: HostFault) -> (r: MgmtError) {
        match err {
            HostFault::SlotOccupied => MgmtError::InvalidTransition,
            HostFault::SlotEmpty => MgmtError::HostUninstallFailed,
            HostFault::InvalidFuel => MgmtError::HostInstallFailed,
            HostFault::ScratchTooSmall => MgmtError::HostInstallFailed,
            HostFault::ScratchTooLarge => MgmtError::HostInstallFailed,
            HostFault::Verify => MgmtError::HostInstallFailed,
        }
    }
}

impl vstd::std_specs::convert::FromSpecImpl<HostFault> for MgmtError {
    open spec fn obeys_from_spec() -> bool {
        true
    }

    open spec fn from_spec(err: HostFault) -> MgmtError {
        host_fault_error(err)
    }
}

/// Policy slot addressed by a management request.
#[derive(Clone, Copy, Debug, PartialEq, Eq)]
pub enum PolicySlot {
    Forward,
    EndpointRx,
    EndpointTx,
    Rendezvous,
    Route,
}

/// Wire number of a policy slot.
pub open spec fn slot_code(slot: PolicySlot) -> u8 {
    match slot {
        PolicySlot::Forward => 0,
        PolicySlot::EndpointRx => 1,
        PolicySlot::EndpointTx => 2,
        PolicySlot::Rendezvous => 3,
        PolicySlot::Route => 4,
    }
}

/// The policy slot a wire byte names, if any.
pub open spec fn slot_of_code(b: u8) -> Result<PolicySlot, CodecError> {
    if b == 0 {
        Ok(PolicySlot::Forward)
    } else if b == 1 {
        Ok(PolicySlot::EndpointRx)
    } else if b == 2 {
        Ok(PolicySlot::EndpointTx)
    } else if b == 3 {
        Ok(PolicySlot::Rendezvous)
    } else if b == 4 {
        Ok(PolicySlot::Route)
    } else {
        Err(CodecError::Invalid("unknown management slot"))
    }
}

/// Wire number of a policy slot.
pub fn slot_id(slot: PolicySlot) -> (r: u32)
    ensures
        r == slot_code(slot),
{
    match slot {
        PolicySlot::Forward => 0,
        PolicySlot::EndpointRx => 1,
        PolicySlot::EndpointTx => 2,
        PolicySlot::Rendezvous => 3,
        PolicySlot::Route => 4,
    }
}

/// Decodes a policy slot from its wire number.
pub fn decode_slot(slot: u8) -> (r: Result<PolicySlot, CodecError>)
    ensures
        r == slot_of_code(slot),
{
    match slot {
        0 => Ok(PolicySlot::Forward),
        1 => Ok(PolicySlot::EndpointRx),
        2 => Ok(PolicySlot::EndpointTx),
        3 => Ok(PolicySlot::Rendezvous),
        4 => Ok(PolicySlot::Route),
        _ => Err(CodecError::Invalid("unknown management slot")),
    }
}

/// Subscribe request for streaming observe.
#[derive(Clone, Copy, Debug, Default, PartialEq, Eq)]
pub struct SubscribeReq {
    pub flags: u16,
}

impl SubscribeReq {
    /// Wire image: the flags, big-endian.
    pub open spec fn wire_bytes(self) -> Seq<u8> {
        be_u16(self.flags)
    }

    /// Exact decoding of a subscribe request.
    pub open spec fn parse(s: Seq<u8>) -> Result<SubscribeReq, CodecError> {
        match exact_len(s.len() as int, 2, "trailing bytes after SubscribeReq") {
            Err(e) => Err(e),
            Ok(_) => Ok(SubscribeReq { flags: be_u16_at(s, 0) }),
        }
    }

    pub fn encoded_len(&self) -> (r: Option<usize>)
        ensures
            r == Some(self.wire_bytes().len() as usize),
    {
        Some(2)
    }

    pub fn encode_into(&self, out: &mut [u8]) -> (r: Result<usize, CodecError>)
        ensures
            encode_outcome(self.wire_bytes(), old(out)@, final(out)@, r),
    {
        if out.len() < 2 {
            return Err(CodecError::Truncated);
        }
        put_u16(out, 0, self.flags);
        Ok(2)
    }

    pub fn decode_payload(input: &[u8]) -> (r: Result<SubscribeReq, CodecError>)
        ensures
            r == SubscribeReq::parse(input@),
    {
        match require_exact_len(input.len(), 2, "trailing bytes after SubscribeReq") {
            Err(e) => Err(e),
            Ok(()) => Ok(SubscribeReq { flags: get_u16(input, 0) }),
        }
    }
}

/// Slot-level metrics.
#[derive(Clone, Copy, Debug, Default, PartialEq, Eq)]
pub struct StatsResp {
    pub traps: u32,
    pub aborts: u32,
    pub fuel_used: u32,
    pub active_version: u32,
}

impl StatsResp {
    /// Wire image: the four counters, big-endian, in field order.
    pub open spec fn wire_bytes(self) -> Seq<u8> {
        be_u32(self.traps) + be_u32(self.aborts) + be_u32(self.fuel_used) + be_u32(
            self.active_version,
        )
    }

    /// The counters read from the sixteen bytes of `s`.
    pub open spec fn read(s: Seq<u8>) -> StatsResp {
        StatsResp {
            traps: be_u32_at(s, 0),
            aborts: be_u32_at(s, 4),
            fuel_used: be_u32_at(s, 8),
            active_version: be_u32_at(s, 12),
        }
    }

    /// Exact decoding of slot metrics.
    pub open spec fn parse(s: Seq<u8>) -> Result<StatsResp, CodecError> {
        match exact_len(s.len() as int, 16, "trailing bytes after StatsResp") {
            Err(e) => Err(e),
            Ok(_) => Ok(StatsResp::read(s)),
        }
    }

    pub fn encoded_len(&self) -> (r: Option<usize>)
        ensures
            r == Some(self.wire_bytes().len() as usize),
    {
        Some(16)
    }

    /// Writes the wire image at `at`.
    pub fn write_at(&self, out: &mut [u8], at: usize)
        requires
            at + 16 <= old(out)@.len(),
        ensures
            final(out)@ == splice(old(out)@, at as int, self.wire_bytes()),
    {
        let n = out.len();
        assert(at + 16 <= n);
        let ghost s0 = out@;
        proof {
            lemma_splice_empty(s0, at as int);
        }
        put_u32(out, at, self.traps);
        proof {
            lemma_splice_concat(s0, at as int, Seq::<u8>::empty(), be_u32(self.traps));
        }
        put_u32(out, at + 4, self.aborts);
        proof {
            lemma_splice_concat(s0, at as int, Seq::<u8>::empty() + be_u32(self.traps), be_u32(self.aborts));
        }
        put_u32(out, at + 8, self.fuel_used);
        proof {
            lemma_splice_concat(
                s0,
                at as int,
                Seq::<u8>::empty() + be_u32(self.traps) + be_u32(self.aborts),
                be_u32(self.fuel_used),
            );
        }
        put_u32(out, at + 12, self.active_version);
        proof {
            lemma_splice_concat(
                s0,
                at as int,
                Seq::<u8>::empty() + be_u32(self.traps) + be_u32(self.aborts) + be_u32(self.fuel_used),
                be_u32(self.active_version),
            );
            assert(Seq::<u8>::empty() + be_u32(self.traps) + be_u32(self.aborts) + be_u32(self.fuel_used)
                + be_u32(self.active_version) =~= self.wire_bytes());
        }
    }

    pub fn encode_into(&self, out: &mut [u8]) -> (r: Result<usize, CodecError>)
        ensures
            encode_outcome(self.wire_bytes(), old(out)@, final(out)@, r),
    {
        if out.len() < 16 {
            return Err(CodecError::Truncated);
        }
        self.write_at(out, 0);
        Ok(16)
    }

    /// Reads the counters from the sixteen bytes at `at`.
    pub fn read_at(input: &[u8], at: usize) -> (r: StatsResp)
        requires
            at + 16 <= input@.len(),
        ensures
            r == StatsResp::read(input@.subrange(at as int, at + 16)),
    {
        let n = input.len();
        assert(at + 16 <= n);
        StatsResp {
            traps: get_u32(input, at),
            aborts: get_u32(input, at + 4),
            fuel_used: get_u32(input, at + 8),
            active_version: get_u32(input, at + 12),
        }
    }

    pub fn decode_payload(input: &[u8]) -> (r: Result<StatsResp, CodecError>)
        ensures
            r == StatsResp::parse(input@),
    {
        match require_exact_len(input.len(), 16, "trailing bytes after StatsResp") {
            Err(e) => Err(e),
            Ok(()) => {
                let r = StatsResp::read_at(input, 0);
                assert(input@.subrange(0, 16) =~= input@);
                Ok(r)
            },
        }
    }
}

/// Policy event statistics harvested from tap events.
#[derive(Clone, Copy, Debug, Default, PartialEq, Eq)]
pub struct PolicyStats {
    pub aborts: u32,
    pub traps: u32,
    pub annotations: u32,
    pub effects: u32,
    pub effects_ok: u32,
    pub commits: u32,
    pub reverts: u32,
    pub last_commit: Option<u32>,
    pub last_revert: Option<u32>,
}

/// The value an optional counter puts on the wire (zero when absent).
pub open spec fn opt_value(o: Option<u32>) -> u32 {
    match o {
        Some(x) => x,
        None => 0,
    }
}

/// The presence byte of an optional counter.
pub open spec fn opt_flag(o: Option<u32>) -> u8 {
    match o {
        Some(_) => 1,
        None => 0,
    }
}

/// Wire image of an optional counter: value then presence byte.
pub open spec fn opt_value_then_flag(o: Option<u32>) -> Seq<u8> {
    be_u32(opt_value(o)) + seq![opt_flag(o)]
}

/// An optional counter read from a presence byte and a value: any non-zero
/// presence byte means present.
pub open spec fn opt_read(flag: u8, value: u32) -> Option<u32> {
    if flag == 0 {
        None
    } else {
        Some(value)
    }
}

fn opt_value_exec(o: Option<u32>) -> (r: u32)
    ensures
        r == opt_value(o),
{
    match o {
        Some(x) => x,
        None => 0,
    }
}

fn opt_flag_exec(o: Option<u32>) -> (r: u8)
    ensures
        r == opt_flag(o),
{
    match o {
        Some(_) => 1,
        None => 0,
    }
}

fn opt_read_exec(flag: u8, value: u32) -> (r: Option<u32>)
    ensures
        r == opt_read(flag, value),
{
    if flag == 0 {
        None
    } else {
        Some(value)
    }
}

impl PolicyStats {
    /// Wire image: the seven counters big-endian in field order, then each
    /// optional counter as value and presence byte.
    pub open spec fn wire_bytes(self) -> Seq<u8> {
        be_u32(self.aborts) + be_u32(self.traps) + be_u32(self.annotations) + be_u32(self.effects)
            + be_u32(self.effects_ok) + be_u32(self.commits) + be_u32(self.reverts)
            + opt_value_then_flag(self.last_commit) + opt_value_then_flag(self.last_revert)
    }

    /// The statistics read from the thirty-eight bytes of `s`.
    pub open spec fn read(s: Seq<u8>) -> PolicyStats {
        PolicyStats {
            aborts: be_u32_at(s, 0),
            traps: be_u32_at(s, 4),
            annotations: be_u32_at(s, 8),
            effects: be_u32_at(s, 12),
            effects_ok: be_u32_at(s, 16),
            commits: be_u32_at(s, 20),
            reverts: be_u32_at(s, 24),
            last_commit: opt_read(s[32], be_u32_at(s, 28)),
            last_revert: opt_read(s[37], be_u32_at(s, 33)),
        }
    }

    /// Exact decoding of policy statistics.
    pub open spec fn parse(s: Seq<u8>) -> Result<PolicyStats, CodecError> {
        match exact_len(s.len() as int, 38, "trailing bytes after PolicyStats") {
            Err(e) => Err(e),
            Ok(_) => Ok(PolicyStats::read(s)),
        }
    }

    /// True when the optional counters are in the form the encoder writes:
    /// presence byte 0 or 1, and a zero value when absent.
    pub open spec fn canonical_image(s: Seq<u8>) -> bool {
        &&& s[32] == 0 || s[32] == 1
        &&& s[37] == 0 || s[37] == 1
        &&& s[32] == 0 ==> be_u32_at(s, 28) == 0
        &&& s[37] == 0 ==> be_u32_at(s, 33) == 0
    }

    pub fn encoded_len(&self) -> (r: Option<usize>)
        ensures
            r == Some(self.wire_bytes().len() as usize),
    {
        Some(38)
    }

    /// Writes the wire image at `at`.
    pub fn write_at(&self, out: &mut [u8], at: usize)
        requires
            at + 38 <= old(out)@.len(),
        ensures
            final(out)@ == splice(old(out)@, at as int, self.wire_bytes()),
    {
        let n = out.len();
        assert(at + 38 <= n);
        let ghost s0 = out@;
        let ghost mut acc = Seq::<u8>::empty();
        proof {
            lemma_splice_empty(s0, at as int);
        }
        put_u32(out, at, self.aborts);
        proof {
            lemma_splice_concat(s0, at as int, acc, be_u32(self.aborts));
            acc = acc + be_u32(self.aborts);
        }
        put_u32(out, at + 4, self.traps);
        proof {
            lemma_splice_concat(s0, at as int, acc, be_u32(self.traps));
            acc = acc + be_u32(self.traps);
        }
        put_u32(out, at + 8, self.annotations);
        proof {
            lemma_splice_concat(s0, at as int, acc, be_u32(self.annotations));
            acc = acc + be_u32(self.annotations);
        }
        put_u32(out, at + 12, self.effects);
        proof {
            lemma_splice_concat(s0, at as int, acc, be_u32(self.effects));
            acc = acc + be_u32(self.effects);
        }
        put_u32(out, at + 16, self.effects_ok);
        proof {
            lemma_splice_concat(s0, at as int, acc, be_u32(self.effects_ok));
            acc = acc + be_u32(self.effects_ok);
        }
        put_u32(out, at + 20, self.commits);
        proof {
            lemma_splice_concat(s0, at as int, acc, be_u32(self.commits));
            acc = acc + be_u32(self.commits);
        }
        put_u32(out, at + 24, self.reverts);
        proof {
            lemma_splice_concat(s0, at as int, acc, be_u32(self.reverts));
            acc = acc + be_u32(self.reverts);
        }
        put_u32(out, at + 28, opt_value_exec(self.last_commit));
        proof {
            lemma_splice_concat(s0, at as int, acc, be_u32(opt_value(self.last_commit)));
            acc = acc + be_u32(opt_value(self.last_commit));
        }
        put_u8(out, at + 32, opt_flag_exec(self.last_commit));
        proof {
            lemma_splice_concat(s0, at as int, acc, seq![opt_flag(self.last_commit)]);
            acc = acc + seq![opt_flag(self.last_commit)];
        }
        put_u32(out, at + 33, opt_value_exec(self.last_revert));
        proof {
            lemma_splice_concat(s0, at as int, acc, be_u32(opt_value(self.last_revert)));
            acc = acc + be_u32(opt_value(self.last_revert));
        }
        put_u8(out, at + 37, opt_flag_exec(self.last_revert));
        proof {
            lemma_splice_concat(s0, at as int, acc, seq![opt_flag(self.last_revert)]);
            acc = acc + seq![opt_flag(self.last_revert)];
            assert(acc =~= self.wire_bytes());
        }
    }

    pub fn encode_into(&self, out: &mut [u8]) -> (r: Result<usize, CodecError>)
        ensures
            encode_outcome(self.wire_bytes(), old(out)@, final(out)@, r),
    {
        if out.len() < 38 {
            return Err(CodecError::Truncated);
        }
        self.write_at(out, 0);
        Ok(38)
    }

    /// Reads the statistics from the thirty-eight bytes at `at`.
    pub fn read_at(input: &[u8], at: usize) -> (r: PolicyStats)
        requires
            at + 38 <= input@.len(),
        ensures
            r == PolicyStats::read(input@.subrange(at as int, at + 38)),
    {
        let n = input.len();
        assert(at + 38 <= n);
        let ghost s = input@.subrange(at as int, at + 38);
        let last_commit = get_u32(input, at + 28);
        let last_revert = get_u32(input, at + 33);
        let r = PolicyStats {
            aborts: get_u32(input, at),
            traps: get_u32(input, at + 4),
            annotations: get_u32(input, at + 8),
            effects: get_u32(input, at + 12),
            effects_ok: get_u32(input, at + 16),
            commits: get_u32(input, at + 20),
            reverts: get_u32(input, at + 24),
            last_commit: opt_read_exec(input[at + 32], last_commit),
            last_revert: opt_read_exec(input[at + 37], last_revert),
        };
        assert(r == PolicyStats::read(s));
        r
    }

    pub fn decode_payload(input: &[u8]) -> (r: Result<PolicyStats, CodecError>)
        ensures
            r == PolicyStats::parse(input@),
    {
        match require_exact_len(input.len(), 38, "trailing bytes after PolicyStats") {
            Err(e) => Err(e),
            Ok(()) => {
                let r = PolicyStats::read_at(input, 0);
                assert(input@.subrange(0, 38) =~= input@);
                Ok(r)
            },
        }
    }
}

/// Policy statistics collected during transitions.
#[derive(Clone, Copy, Debug, Default, PartialEq, Eq)]
pub struct TransitionReport {
    pub version: u32,
    pub policy_stats: PolicyStats,
}

impl TransitionReport {
    /// Wire image: the version big-endian, then the statistics image.
    pub open spec fn wire_bytes(self) -> Seq<u8> {
        be_u32(self.version) + self.policy_stats.wire_bytes()
    }

    /// Exact decoding of a transition report.
    pub open spec fn parse(s: Seq<u8>) -> Result<TransitionReport, CodecError> {
        match exact_len(s.len() as int, 42, "trailing bytes after TransitionReport") {
            Err(e) => Err(e),
            Ok(_) => Ok(
                TransitionReport {
                    version: be_u32_at(s, 0),
                    policy_stats: PolicyStats::read(s.subrange(4, 42)),
                },
            ),
        }
    }

    pub fn encoded_len(&self) -> (r: Option<usize>)
        ensures
            r == Some(self.wire_bytes().len() as usize),
    {
        Some(42)
    }

    pub fn encode_into(&self, out: &mut [u8]) -> (r: Result<usize, CodecError>)
        ensures
            encode_outcome(self.wire_bytes(), old(out)@, final(out)@, r),
    {
        if out.len() < 42 {
            return Err(CodecError::Truncated);
        }
        let ghost s0 = out@;
        put_u32(out, 0, self.version);
        self.policy_stats.write_at(out, 4);
        proof {
            lemma_splice_concat(s0, 0, be_u32(self.version), self.policy_stats.wire_bytes());
        }
        Ok(42)
    }

    pub fn decode_payload(input: &[u8]) -> (r: Result<TransitionReport, CodecError>)
        ensures
            r == TransitionReport::parse(input@),
    {
        match require_exact_len(input.len(), 42, "trailing bytes after TransitionReport") {
            Err(e) => Err(e),
            Ok(()) => Ok(
                TransitionReport {
                    version: get_u32(input, 0),
                    policy_stats: PolicyStats::read_at(input, 4),
                },
            ),
        }
    }
}

/// One-shot report returned when an image is staged but not activated.
#[derive(Clone, Copy, Debug, PartialEq, Eq)]
pub struct LoadReport {
    pub staged_version: u32,
}

impl LoadReport {
    /// Wire image: the staged version, big-endian.
    pub open spec fn wire_bytes(self) -> Seq<u8> {
        be_u32(self.staged_version)
    }

    /// Exact decoding of a load report.
    pub open spec fn parse(s: Seq<u8>) -> Result<LoadReport, CodecError> {
        match exact_len(s.len() as int, 4, "trailing bytes after LoadReport") {
            Err(e) => Err(e),
            Ok(_) => Ok(LoadReport { staged_version: be_u32_at(s, 0) }),
        }
    }

    pub fn encoded_len(&self) -> (r: Option<usize>)
        ensures
            r == Some(self.wire_bytes().len() as usize),
    {
        Some(4)
    }

    pub fn encode_into(&self, out: &mut [u8]) -> (r: Result<usize, CodecError>)
        ensures
            encode_outcome(self.wire_bytes(), old(out)@, final(out)@, r),
    {
        if out.len() < 4 {
            return Err(CodecError::Truncated);
        }
        put_u32(out, 0, self.staged_version);
        Ok(4)
    }

    pub fn decode_payload(input: &[u8]) -> (r: Result<LoadReport, CodecError>)
        ensures
            r == LoadReport::parse(input@),
    {
        match require_exact_len(input.len(), 4, "trailing bytes after LoadReport") {
            Err(e) => Err(e),
            Ok(()) => Ok(LoadReport { staged_version: get_u32(input, 0) }),
        }
    }
}

/// Payload carried by the stats reply route.
#[derive(Clone, Copy, Debug, PartialEq, Eq)]
pub struct StatsReply {
    pub stats: StatsResp,
    pub staged_version: Option<u32>,
}

impl StatsReply {
    /// Wire image: the metrics image, the presence byte of the staged
    /// version, then its value (zero when absent).
    pub open spec fn wire_bytes(self) -> Seq<u8> {
        self.stats.wire_bytes() + seq![opt_flag(self.staged_version)] + be_u32(
            opt_value(self.staged_version),
        )
    }

    /// Exact decoding of a stats reply.
    pub open spec fn parse(s: Seq<u8>) -> Result<StatsReply, CodecError> {
        match exact_len(s.len() as int, 21, "trailing bytes after StatsReply") {
            Err(e) => Err(e),
            Ok(_) => Ok(
                StatsReply {
                    stats: StatsResp::read(s.subrange(0, 16)),
                    staged_version: opt_read(s[16], be_u32_at(s, 17)),
                },
            ),
        }
    }

    /// True when the staged version is in the form the encoder writes.
    pub open spec fn canonical_image(s: Seq<u8>) -> bool {
        &&& s[16] == 0 || s[16] == 1
        &&& s[16] == 0 ==> be_u32_at(s, 17) == 0
    }

    pub fn encoded_len(&self) -> (r: Option<usize>)
        ensures
            r == Some(self.wire_bytes().len() as usize),
    {
        Some(21)
    }

    pub fn encode_into(&self, out: &mut [u8]) -> (r: Result<usize, CodecError>)
        ensures
            encode_outcome(self.wire_bytes(), old(out)@, final(out)@, r),
    {
        if out.len() < 21 {
            return Err(CodecError::Truncated);
        }
        let ghost s0 = out@;
        self.stats.write_at(out, 0);
        put_u8(out, 16, opt_flag_exec(self.staged_version));
        put_u32(out, 17, opt_value_exec(self.staged_version));
        proof {
            lemma_splice_concat(s0, 0, self.stats.wire_bytes(), seq![opt_flag(self.staged_version)]);
            lemma_splice_concat(
                s0,
                0,
                self.stats.wire_bytes() + seq![opt_flag(self.staged_version)],
                be_u32(opt_value(self.staged_version)),
            );
        }
        Ok(21)
    }

    pub fn decode_payload(input: &[u8]) -> (r: Result<StatsReply, CodecError>)
        ensures
            r == StatsReply::parse(input@),
    {
        match require_exact_len(input.len(), 21, "trailing bytes after StatsReply") {
            Err(e) => Err(e),
            Ok(()) => {
                let stats = StatsResp::read_at(input, 0);
                let staged_version = if input[16] == 0 {
                    None
                } else {
                    Some(get_u32(input, 17))
                };
                Ok(StatsReply { stats, staged_version })
            },
        }
    }
}

/// Request payload for slot-scoped command branches.
#[derive(Clone, Copy, Debug, PartialEq, Eq)]
pub struct SlotRequest {
    pub slot: PolicySlot,
}

impl SlotRequest {
    /// Wire image: the slot number.
    pub open spec fn wire_bytes(self) -> Seq<u8> {
        seq![slot_code(self.slot)]
    }

    /// Exact decoding of a slot request.
    pub open spec fn parse(s: Seq<u8>) -> Result<SlotRequest, CodecError> {
        match exact_len(s.len() as int, 1, "trailing bytes after SlotRequest") {
            Err(e) => Err(e),
            Ok(_) => match slot_of_code(s[0]) {
                Err(e) => Err(e),
                Ok(slot) => Ok(SlotRequest { slot }),
            },
        }
    }

    pub fn encoded_len(&self) -> (r: Option<usize>)
        ensures
            r == Some(self.wire_bytes().len() as usize),
    {
        Some(1)
    }

    pub fn encode_into(&self, out: &mut [u8]) -> (r: Result<usize, CodecError>)
        ensures
            encode_outcome(self.wire_bytes(), old(out)@, final(out)@, r),
    {
        if out.len() == 0 {
            return Err(CodecError::Truncated);
        }
        put_u8(out, 0, slot_id(self.slot) as u8);
        Ok(1)
    }

    pub fn decode_payload(input: &[u8]) -> (r: Result<SlotRequest, CodecError>)
        ensures
            r == SlotRequest::parse(input@),
    {
        match require_exact_len(input.len(), 1, "trailing bytes after SlotRequest") {
            Err(e) => Err(e),
            Ok(()) => match decode_slot(input[0]) {
                Err(e) => Err(e),
                Ok(slot) => Ok(SlotRequest { slot }),
            },
        }
    }
}

/// Payload carried by the `LoadBegin` message.
#[derive(Clone, Copy, Debug, PartialEq, Eq)]
pub struct LoadBegin {
    pub slot: PolicySlot,
    pub code_len: u32,
    pub fuel_max: u16,
    pub mem_len: u16,
    pub hash: u32,
}

impl LoadBegin {
    /// Wire image: slot number, code length, fuel limit, memory length and
    /// hash, integers big-endian.
    pub open spec fn wire_bytes(self) -> Seq<u8> {
        seq![slot_code(self.slot)] + be_u32(self.code_len) + be_u16(self.fuel_max) + be_u16(
            self.mem_len,
        ) + be_u32(self.hash)
    }

    /// Exact decoding of a load header.
    pub open spec fn parse(s: Seq<u8>) -> Result<LoadBegin, CodecError> {
        match exact_len(s.len() as int, 13, "trailing bytes after LoadBegin") {
            Err(e) => Err(e),
            Ok(_) => match slot_of_code(s[0]) {
                Err(e) => Err(e),
                Ok(slot) => Ok(
                    LoadBegin {
                        slot,
                        code_len: be_u32_at(s, 1),
                        fuel_max: be_u16_at(s, 5),
                        mem_len: be_u16_at(s, 7),
                        hash: be_u32_at(s, 9),
                    },
                ),
            },
        }
    }

    pub fn encoded_len(&self) -> (r: Option<usize>)
        ensures
            r == Some(self.wire_bytes().len() as usize),
    {
        Some(13)
    }

    pub fn encode_into(&self, out: &mut [u8]) -> (r: Result<usize, CodecError>)
        ensures
            encode_outcome(self.wire_bytes(), old(out)@, final(out)@, r),
    {
        if out.len() < 13 {
            return Err(CodecError::Truncated);
        }
        let ghost s0 = out@;
        let ghost a = seq![slot_code(self.slot)];
        let ghost b = be_u32(self.code_len);
        let ghost c = be_u16(self.fuel_max);
        let ghost d = be_u16(self.mem_len);
        let ghost e = be_u32(self.hash);
        put_u8(out, 0, slot_id(self.slot) as u8);
        put_u32(out, 1, self.code_len);
        put_u16(out, 5, self.fuel_max);
        put_u16(out, 7, self.mem_len);
        put_u32(out, 9, self.hash);
        proof {
            lemma_splice_concat(s0, 0, a, b);
            lemma_splice_concat(s0, 0, a + b, c);
            lemma_splice_concat(s0, 0, a + b + c, d);
            lemma_splice_concat(s0, 0, a + b + c + d, e);
        }
        Ok(13)
    }

    pub fn decode_payload(input: &[u8]) -> (r: Result<LoadBegin, CodecError>)
        ensures
            r == LoadBegin::parse(input@),
    {
        match require_exact_len(input.len(), 13, "trailing bytes after LoadBegin") {
            Err(e) => Err(e),
            Ok(()) => {
                let slot = match decode_slot(input[0]) {
                    Err(e) => return Err(e),
                    Ok(slot) => slot,
                };
                let code_len = get_u32(input, 1);
                let fuel_max = get_u16(input, 5);
                let mem_len = get_u16(input, 7);
                let hash = get_u32(input, 9);
                Ok(LoadBegin { slot, code_len, fuel_max, mem_len, hash })
            },
        }
    }
}

/// Payload for `LoadChunk`; the chunk body is a borrowed wire view.
#[derive(Clone, Copy, Debug, PartialEq, Eq)]
pub struct LoadChunk<'a> {
    pub offset: u32,
    bytes: &'a [u8],
}

/// Wire image of a chunk: offset, body length (both big-endian), body.
pub open spec fn chunk_wire(offset: u32, body: Seq<u8>) -> Seq<u8> {
    be_u32(offset) + be_u16(body.len() as u16) + body
}

/// Exact decoding of a chunk into its offset and body: the six-byte header
/// must be present, the declared body length may not exceed
/// `LOAD_CHUNK_MAX`, and the input must end exactly where the body does.
pub open spec fn chunk_parse(s: Seq<u8>) -> Result<(u32, Seq<u8>), CodecError> {
    if s.len() < 6 {
        Err(CodecError::Truncated)
    } else {
        let len = be_u16_at(s, 4) as int;
        if len > LOAD_CHUNK_MAX {
            Err(CodecError::Invalid("chunk length exceeds LOAD_CHUNK_MAX"))
        } else {
            match exact_len(s.len() as int, 6 + len, "trailing bytes after LoadChunk") {
                Err(e) => Err(e),
                Ok(_) => Ok((be_u32_at(s, 0), s.subrange(6, 6 + len))),
            }
        }
    }
}

impl<'a> View for LoadChunk<'a> {
    /// Offset and body.
    type V = (u32, Seq<u8>);

    closed spec fn view(&self) -> (u32, Seq<u8>) {
        (self.offset, self.bytes@)
    }
}

impl<'a> LoadChunk<'a> {
    /// A chunk at `offset` borrowing `chunk`, which may hold at most
    /// `LOAD_CHUNK_MAX` bytes.
    pub fn new(offset: u32, chunk: &'a [u8]) -> (r: LoadChunk<'a>)
        requires
            chunk@.len() <= LOAD_CHUNK_MAX,
        ensures
            r@ == (offset, chunk@),
    {
        LoadChunk { offset, bytes: chunk }
    }

    /// Number of body bytes.
    pub fn len(&self) -> (r: u16)
        ensures
            r == self@.1.len() as u16,
    {
        self.bytes.len() as u16
    }

    /// The body bytes.
    pub fn bytes(&self) -> (r: &[u8])
        ensures
            r@ == self@.1,
    {
        self.bytes
    }

    pub fn encoded_len(&self) -> (r: Option<usize>)
        requires
            self@.1.len() + 6 <= usize::MAX,
        ensures
            r == Some((6 + self@.1.len()) as usize),
    {
        Some(6 + self.bytes.len())
    }

    pub fn encode_into(&self, out: &mut [u8]) -> (r: Result<usize, CodecError>)
        ensures
            self@.1.len() > LOAD_CHUNK_MAX ==> r == Err::<usize, CodecError>(
                CodecError::Invalid("chunk length exceeds LOAD_CHUNK_MAX"),
            ) && final(out)@ == old(out)@,
            self@.1.len() <= LOAD_CHUNK_MAX ==> encode_outcome(
                chunk_wire(self@.0, self@.1),
                old(out)@,
                final(out)@,
                r,
            ),
    {
        let len = self.bytes.len();
        assert(self@ == (self.offset, self.bytes@));
        if len > LOAD_CHUNK_MAX {
            return Err(CodecError::Invalid("chunk length exceeds LOAD_CHUNK_MAX"));
        }
        let total = 6 + len;
        if out.len() < total {
            return Err(CodecError::Truncated);
        }
        let ghost s0 = out@;
        put_u32(out, 0, self.offset);
        put_u16(out, 4, len as u16);
        let ghost s1 = out@;
        let mut i: usize = 0;
        while i < len
            invariant
                len == self.bytes@.len(),
                total == 6 + len,
                total <= out@.len(),
                i <= len,
                out@.len() == s1.len(),
                forall|k: int| 0 <= k < 6 ==> out@[k] == s1[k],
                forall|k: int| 6 <= k < 6 + i ==> out@[k] == self.bytes@[k - 6],
                forall|k: int| total <= k < out@.len() ==> out@[k] == s1[k],
            decreases len - i,
        {
            out[6 + i] = self.bytes[i];
            i = i + 1;
        }
        proof {
            lemma_splice_concat(s0, 0, be_u32(self.offset), be_u16(len as u16));
            lemma_splice_concat(
                s0,
                0,
                be_u32(self.offset) + be_u16(len as u16),
                self.bytes@,
            );
            assert(out@ =~= splice(s1, 6, self.bytes@));
        }
        Ok(total)
    }

    /// Decodes a chunk whose body borrows from `input`.
    pub fn decode_payload(input: &'a [u8]) -> (r: Result<LoadChunk<'a>, CodecError>)
        ensures
            match r {
                Ok(c) => chunk_parse(input@) == Ok::<(u32, Seq<u8>), CodecError>(
                    c@,
                ),
                Err(e) => chunk_parse(input@) == Err::<(u32, Seq<u8>), CodecError>(e),
            },
    {
        if input.len() < 6 {
            return Err(CodecError::Truncated);
        }
        let offset = get_u32(input, 0);
        let len = get_u16(input, 4);
        let len_usize = len as usize;
        if len_usize > LOAD_CHUNK_MAX {
            return Err(CodecError::Invalid("chunk length exceeds LOAD_CHUNK_MAX"));
        }
        match require_exact_len(input.len(), 6 + len_usize, "trailing bytes after LoadChunk") {
            Err(e) => return Err(e),
            Ok(()) => {},
        }
        Ok(LoadChunk { offset, bytes: vstd::slice::slice_subrange(input, 6, 6 + len_usize) })
    }
}

/// Typical management protocol replies.
#[derive(Clone, Copy, Debug, PartialEq, Eq)]
pub enum Reply {
    Loaded(LoadReport),
    ActivationScheduled(TransitionReport),
    Reverted(TransitionReport),
    Stats { stats: StatsResp, staged_version: Option<u32> },
}

/// Request payload for code upload branches.
#[derive(Clone, Copy, Debug, PartialEq, Eq)]
pub struct LoadRequest<'a> {
    pub slot: PolicySlot,
    pub code: &'a [u8],
    pub fuel_max: u16,
    pub mem_len: u16,
}

/// Management requests carried by the request/reply management session.
#[derive(Clone, Copy, Debug, PartialEq, Eq)]
pub enum Request<'a> {
    Load(LoadRequest<'a>),
    LoadAndActivate(LoadRequest<'a>),
    Activate(SlotRequest),
    Revert(SlotRequest),
    Stats(SlotRequest),
}

/// Decoding the wire image of a subscribe request gives it back.
pub proof fn subscribe_req_roundtrip(v: SubscribeReq)
    ensures
        SubscribeReq::parse(v.wire_bytes()) == Ok::<SubscribeReq, CodecError>(v),
{
    lemma_read_u16_in(seq![], v.flags, seq![]);
    assert(seq![] + be_u16(v.flags) + seq![] =~= v.wire_bytes());
}

/// A subscribe request decodes only from its exact wire image.
pub proof fn subscribe_req_canonical(s: Seq<u8>)
    ensures
        SubscribeReq::parse(s) matches Ok(v) ==> v.wire_bytes() == s,
{
    if s.len() == 2 {
        lemma_u16_image_at(s, 0);
        assert(s.subrange(0, 2) =~= s);
    }
}

/// Decoding the wire image of slot metrics gives them back.
pub proof fn stats_resp_roundtrip(v: StatsResp)
    ensures
        StatsResp::parse(v.wire_bytes()) == Ok::<StatsResp, CodecError>(v),
{
    let a = be_u32(v.traps);
    let b = be_u32(v.aborts);
    let c = be_u32(v.fuel_used);
    let d = be_u32(v.active_version);
    let s = v.wire_bytes();
    lemma_read_u32_in(seq![], v.traps, b + c + d);
    assert(seq![] + a + (b + c + d) =~= s);
    lemma_read_u32_in(a, v.aborts, c + d);
    assert(a + b + (c + d) =~= s);
    lemma_read_u32_in(a + b, v.fuel_used, d);
    assert(a + b + c + d =~= s);
    lemma_read_u32_in(a + b + c, v.active_version, seq![]);
    assert(a + b + c + d + seq![] =~= s);
}

/// Slot metrics decode only from their exact wire image.
pub proof fn stats_resp_canonical(s: Seq<u8>)
    ensures
        StatsResp::parse(s) matches Ok(v) ==> v.wire_bytes() == s,
{
    if s.len() == 16 {
        lemma_u32_image_at(s, 0);
        lemma_u32_image_at(s, 4);
        lemma_u32_image_at(s, 8);
        lemma_u32_image_at(s, 12);
        assert(StatsResp::read(s).wire_bytes() =~= s);
    }
}

/// Decoding the wire image of policy statistics gives them back.
pub proof fn policy_stats_roundtrip(v: PolicyStats)
    ensures
        PolicyStats::parse(v.wire_bytes()) == Ok::<PolicyStats, CodecError>(v),
{
    let w = v.wire_bytes();
    assert(w.len() == 38);
    assert(w.subrange(0, 4) =~= be_u32(v.aborts));
    assert(w.subrange(4, 8) =~= be_u32(v.traps));
    assert(w.subrange(8, 12) =~= be_u32(v.annotations));
    assert(w.subrange(12, 16) =~= be_u32(v.effects));
    assert(w.subrange(16, 20) =~= be_u32(v.effects_ok));
    assert(w.subrange(20, 24) =~= be_u32(v.commits));
    assert(w.subrange(24, 28) =~= be_u32(v.reverts));
    assert(w.subrange(28, 32) =~= be_u32(opt_value(v.last_commit)));
    assert(w.subrange(33, 37) =~= be_u32(opt_value(v.last_revert)));
    assert(w[32] == opt_flag(v.last_commit));
    assert(w[37] == opt_flag(v.last_revert));
    lemma_u32_from_window(w, 0, v.aborts);
    lemma_u32_from_window(w, 4, v.traps);
    lemma_u32_from_window(w, 8, v.annotations);
    lemma_u32_from_window(w, 12, v.effects);
    lemma_u32_from_window(w, 16, v.effects_ok);
    lemma_u32_from_window(w, 20, v.commits);
    lemma_u32_from_window(w, 24, v.reverts);
    lemma_u32_from_window(w, 28, opt_value(v.last_commit));
    lemma_u32_from_window(w, 33, opt_value(v.last_revert));
}

/// Policy statistics decode from exactly thirty-eight bytes, and an image
/// whose optional counters are in encoder form is the wire image of what it
/// decodes to.
pub proof fn policy_stats_canonical(s: Seq<u8>)
    ensures
        PolicyStats::parse(s) is Ok ==> s.len() == 38,
        PolicyStats::canonical_image(s) ==> (PolicyStats::parse(s) matches Ok(v) ==> v.wire_bytes()
            == s),
{
    if s.len() == 38 && PolicyStats::canonical_image(s) {
        let v = PolicyStats::read(s);
        lemma_u32_image_at(s, 0);
        lemma_u32_image_at(s, 4);
        lemma_u32_image_at(s, 8);
        lemma_u32_image_at(s, 12);
        lemma_u32_image_at(s, 16);
        lemma_u32_image_at(s, 20);
        lemma_u32_image_at(s, 24);
        lemma_u32_image_at(s, 28);
        lemma_u32_image_at(s, 33);
        assert(be_u32(opt_value(v.last_commit)) == s.subrange(28, 32));
        assert(be_u32(opt_value(v.last_revert)) == s.subrange(33, 37));
        assert(v.wire_bytes() =~= s);
    }
}

/// Decoding the wire number of a slot gives the slot back, and every number
/// that decodes is the wire number of what it decodes to.
pub proof fn slot_code_roundtrip(slot: PolicySlot, b: u8)
    ensures
        slot_of_code(slot_code(slot)) == Ok::<PolicySlot, CodecError>(slot),
        slot_of_code(b) matches Ok(t) ==> slot_code(t) == b,
        slot_of_code(b) is Err <==> b > 4,
{
}

/// A subscribe request followed by further bytes does not decode.
pub proof fn subscribe_req_rejects_trailing(v: SubscribeReq, extra: Seq<u8>)
    requires
        extra.len() > 0,
    ensures
        SubscribeReq::parse(v.wire_bytes() + extra) is Err,
{
}

/// Slot metrics followed by further bytes do not decode.
pub proof fn stats_resp_rejects_trailing(v: StatsResp, extra: Seq<u8>)
    requires
        extra.len() > 0,
    ensures
        StatsResp::parse(v.wire_bytes() + extra) is Err,
{
}

/// Policy statistics followed by further bytes do not decode.
pub proof fn policy_stats_rejects_trailing(v: PolicyStats, extra: Seq<u8>)
    requires
        extra.len() > 0,
    ensures
        PolicyStats::parse(v.wire_bytes() + extra) is Err,
{
    let s = v.wire_bytes() + extra;
    assert(v.wire_bytes().len() == 38);
    assert(exact_len(s.len() as int, 38, "trailing bytes after PolicyStats") is Err);
}

/// Decoding the wire image of a transition report gives it back.
pub proof fn transition_report_roundtrip(v: TransitionReport)
    ensures
        TransitionReport::parse(v.wire_bytes()) == Ok::<TransitionReport, CodecError>(v),
{
    let w = v.wire_bytes();
    policy_stats_roundtrip(v.policy_stats);
    assert(w.subrange(0, 4) =~= be_u32(v.version));
    assert(w.subrange(4, 42) =~= v.policy_stats.wire_bytes());
    lemma_u32_from_window(w, 0, v.version);
}

/// A transition report decodes from exactly forty-two bytes, and an image
/// whose optional counters are in encoder form is the wire image of what it
/// decodes to.
pub proof fn transition_report_canonical(s: Seq<u8>)
    ensures
        TransitionReport::parse(s) is Ok ==> s.len() == 42,
        s.len() == 42 && PolicyStats::canonical_image(s.subrange(4, 42)) ==> (
        TransitionReport::parse(s) matches Ok(v) ==> v.wire_bytes() == s),
{
    if s.len() == 42 && PolicyStats::canonical_image(s.subrange(4, 42)) {
        let inner = s.subrange(4, 42);
        policy_stats_canonical(inner);
        lemma_u32_image_at(s, 0);
        assert(be_u32(be_u32_at(s, 0)) + inner =~= s);
    }
}

/// A transition report followed by further bytes does not decode.
pub proof fn transition_report_rejects_trailing(v: TransitionReport, extra: Seq<u8>)
    requires
        extra.len() > 0,
    ensures
        TransitionReport::parse(v.wire_bytes() + extra) is Err,
{
    let s = v.wire_bytes() + extra;
    assert(v.policy_stats.wire_bytes().len() == 38);
    assert(v.wire_bytes().len() == 42);
    assert(exact_len(s.len() as int, 42, "trailing bytes after TransitionReport") is Err);
}

/// Decoding the wire image of a load report gives it back.
pub proof fn load_report_roundtrip(v: LoadReport)
    ensures
        LoadReport::parse(v.wire_bytes()) == Ok::<LoadReport, CodecError>(v),
{
    let w = v.wire_bytes();
    assert(w.subrange(0, 4) =~= be_u32(v.staged_version));
    lemma_u32_from_window(w, 0, v.staged_version);
}

/// A load report decodes only from its exact wire image.
pub proof fn load_report_canonical(s: Seq<u8>)
    ensures
        LoadReport::parse(s) matches Ok(v) ==> v.wire_bytes() == s,
{
    if s.len() == 4 {
        lemma_u32_image_at(s, 0);
        assert(s.subrange(0, 4) =~= s);
    }
}

/// A load report followed by further bytes does not decode.
pub proof fn load_report_rejects_trailing(v: LoadReport, extra: Seq<u8>)
    requires
        extra.len() > 0,
    ensures
        LoadReport::parse(v.wire_bytes() + extra) is Err,
{
}

/// Decoding the wire image of a stats reply gives it back.
pub proof fn stats_reply_roundtrip(v: StatsReply)
    ensures
        StatsReply::parse(v.wire_bytes()) == Ok::<StatsReply, CodecError>(v),
{
    let w = v.wire_bytes();
    stats_resp_roundtrip(v.stats);
    assert(w.subrange(0, 16) =~= v.stats.wire_bytes());
    assert(w.subrange(17, 21) =~= be_u32(opt_value(v.staged_version)));
    assert(w[16] == opt_flag(v.staged_version));
    lemma_u32_from_window(w, 17, opt_value(v.staged_version));
}

/// A stats reply decodes from exactly twenty-one bytes, and an image whose
/// staged version is in encoder form is the wire image of what it decodes
/// to.
pub proof fn stats_reply_canonical(s: Seq<u8>)
    ensures
        StatsReply::parse(s) is Ok ==> s.len() == 21,
        StatsReply::canonical_image(s) ==> (StatsReply::parse(s) matches Ok(v) ==> v.wire_bytes()
            == s),
{
    if s.len() == 21 && StatsReply::canonical_image(s) {
        let head = s.subrange(0, 16);
        stats_resp_canonical(head);
        lemma_u32_image_at(s, 17);
        let v = StatsReply::parse(s)->Ok_0;
        assert(be_u32(opt_value(v.staged_version)) == s.subrange(17, 21));
        assert(v.wire_bytes() =~= s);
    }
}

/// A stats reply followed by further bytes does not decode.
pub proof fn stats_reply_rejects_trailing(v: StatsReply, extra: Seq<u8>)
    requires
        extra.len() > 0,
    ensures
        StatsReply::parse(v.wire_bytes() + extra) is Err,
{
}

/// Decoding the wire image of a slot request gives it back.
pub proof fn slot_request_roundtrip(v: SlotRequest)
    ensures
        SlotRequest::parse(v.wire_bytes()) == Ok::<SlotRequest, CodecError>(v),
{
}

/// A slot request decodes only from its exact wire image.
pub proof fn slot_request_canonical(s: Seq<u8>)
    ensures
        SlotRequest::parse(s) matches Ok(v) ==> v.wire_bytes() == s,
{
    if SlotRequest::parse(s) is Ok {
        assert(s =~= seq![s[0]]);
    }
}

/// A slot request followed by further bytes does not decode.
pub proof fn slot_request_rejects_trailing(v: SlotRequest, extra: Seq<u8>)
    requires
        extra.len() > 0,
    ensures
        SlotRequest::parse(v.wire_bytes() + extra) is Err,
{
}

/// Decoding the wire image of a load header gives it back.
pub proof fn load_begin_roundtrip(v: LoadBegin)
    ensures
        LoadBegin::parse(v.wire_bytes()) == Ok::<LoadBegin, CodecError>(v),
{
    let w = v.wire_bytes();
    assert(w[0] == slot_code(v.slot));
    assert(w.subrange(1, 5) =~= be_u32(v.code_len));
    assert(w.subrange(5, 7) =~= be_u16(v.fuel_max));
    assert(w.subrange(7, 9) =~= be_u16(v.mem_len));
    assert(w.subrange(9, 13) =~= be_u32(v.hash));
    lemma_u32_from_window(w, 1, v.code_len);
    lemma_u16_from_window(w, 5, v.fuel_max);
    lemma_u16_from_window(w, 7, v.mem_len);
    lemma_u32_from_window(w, 9, v.hash);
}

/// A load header decodes only from its exact wire image.
pub proof fn load_begin_canonical(s: Seq<u8>)
    ensures
        LoadBegin::parse(s) matches Ok(v) ==> v.wire_bytes() == s,
{
    if LoadBegin::parse(s) is Ok {
        let v = LoadBegin::parse(s)->Ok_0;
        lemma_u32_image_at(s, 1);
        lemma_u16_image_at(s, 5);
        lemma_u16_image_at(s, 7);
        lemma_u32_image_at(s, 9);
        assert(v.wire_bytes() =~= s);
    }
}

/// A load header followed by further bytes does not decode.
pub proof fn load_begin_rejects_trailing(v: LoadBegin, extra: Seq<u8>)
    requires
        extra.len() > 0,
    ensures
        LoadBegin::parse(v.wire_bytes() + extra) is Err,
{
}

/// Decoding the wire image of a management error gives it back.
pub proof fn mgmt_error_roundtrip(v: MgmtError)
    ensures
        MgmtError::parse(v.wire_bytes()) == Ok::<MgmtError, CodecError>(v),
{
    let w = v.wire_bytes();
    match v {
        MgmtError::ChunkOutOfOrder { expected, got } => {
            assert(w.subrange(1, 5) =~= be_u32(expected));
            assert(w.subrange(5, 9) =~= be_u32(got));
            lemma_u32_from_window(w, 1, expected);
            lemma_u32_from_window(w, 5, got);
        },
        MgmtError::ChunkTooLarge { remaining, provided } => {
            assert(w.subrange(1, 5) =~= be_u32(remaining));
            assert(w.subrange(5, 9) =~= be_u32(provided));
            lemma_u32_from_window(w, 1, remaining);
            lemma_u32_from_window(w, 5, provided);
        },
        _ => {},
    }
}

/// A management error decodes only from its exact wire image.
pub proof fn mgmt_error_canonical(s: Seq<u8>)
    ensures
        MgmtError::parse(s) matches Ok(v) ==> v.wire_bytes() == s,
{
    if MgmtError::parse(s) is Ok {
        let v = MgmtError::parse(s)->Ok_0;
        let tag = s[0];
        if tag == 2 || tag == 3 {
            lemma_u32_image_at(s, 1);
            lemma_u32_image_at(s, 5);
        }
        assert(v.wire_bytes() =~= s);
    }
}

/// A management error followed by further bytes does not decode.
pub proof fn mgmt_error_rejects_trailing(v: MgmtError, extra: Seq<u8>)
    requires
        extra.len() > 0,
    ensures
        MgmtError::parse(v.wire_bytes() + extra) is Err,
{
    let s = v.wire_bytes() + extra;
    assert(s[0] == v.wire_bytes()[0]);
}

/// Decoding the wire image of a chunk whose body fits gives the chunk back.
pub proof fn chunk_roundtrip(offset: u32, body: Seq<u8>)
    requires
        body.len() <= LOAD_CHUNK_MAX,
    ensures
        chunk_parse(chunk_wire(offset, body)) == Ok::<(u32, Seq<u8>), CodecError>((offset, body)),
{
    let w = chunk_wire(offset, body);
    let n = body.len() as u16;
    assert(w.subrange(0, 4) =~= be_u32(offset));
    assert(w.subrange(4, 6) =~= be_u16(n));
    lemma_u32_from_window(w, 0, offset);
    lemma_u16_from_window(w, 4, n);
    assert(w.subrange(6, 6 + body.len() as int) =~= body);
}

/// A chunk decodes only from its exact wire image, and its body fits.
pub proof fn chunk_canonical(s: Seq<u8>)
    ensures
        chunk_parse(s) matches Ok(c) ==> c.1.len() <= LOAD_CHUNK_MAX && chunk_wire(c.0, c.1) == s,
{
    if chunk_parse(s) is Ok {
        let c = chunk_parse(s)->Ok_0;
        lemma_u32_image_at(s, 0);
        lemma_u16_image_at(s, 4);
        assert(c.1.len() as u16 == be_u16_at(s, 4));
        assert(chunk_wire(c.0, c.1) =~= s);
    }
}

/// A chunk followed by further bytes does not decode.
pub proof fn chunk_rejects_trailing(offset: u32, body: Seq<u8>, extra: Seq<u8>)
    requires
        body.len() <= LOAD_CHUNK_MAX,
        extra.len() > 0,
    ensures
        chunk_parse(chunk_wire(offset, body) + extra) is Err,
{
    let w = chunk_wire(offset, body);
    let n = body.len() as u16;
    let s = w + extra;
    assert(s.subrange(4, 6) =~= be_u16(n));
    lemma_u16_from_window(s, 4, n);
}

/// Slots are numbered on the wire in declaration order, from zero, and
/// exactly the numbers zero to four name a slot.
pub proof fn slot_numbering(b: u8)
    ensures
        slot_code(PolicySlot::Forward) == 0,
        slot_code(PolicySlot::EndpointRx) == 1,
        slot_code(PolicySlot::EndpointTx) == 2,
        slot_code(PolicySlot::Rendezvous) == 3,
        slot_code(PolicySlot::Route) == 4,
        b == 0 ==> slot_of_code(b) == Ok::<PolicySlot, CodecError>(PolicySlot::Forward),
        b == 1 ==> slot_of_code(b) == Ok::<PolicySlot, CodecError>(PolicySlot::EndpointRx),
        b == 2 ==> slot_of_code(b) == Ok::<PolicySlot, CodecError>(PolicySlot::EndpointTx),
        b == 3 ==> slot_of_code(b) == Ok::<PolicySlot, CodecError>(PolicySlot::Rendezvous),
        b == 4 ==> slot_of_code(b) == Ok::<PolicySlot, CodecError>(PolicySlot::Route),
        b > 4 ==> slot_of_code(b) == Err::<PolicySlot, CodecError>(
            CodecError::Invalid("unknown management slot"),
        ),
{
}

/// Slot metrics go on the wire as sixteen bytes: traps, aborts, fuel used
/// and active version, each big-endian in four bytes, in that order.
pub proof fn stats_resp_layout(v: StatsResp)
    ensures
        v.wire_bytes().len() == 16,
        v.wire_bytes().subrange(0, 4) == be_u32(v.traps),
        v.wire_bytes().subrange(4, 8) == be_u32(v.aborts),
        v.wire_bytes().subrange(8, 12) == be_u32(v.fuel_used),
        v.wire_bytes().subrange(12, 16) == be_u32(v.active_version),
{
    let w = v.wire_bytes();
    assert(w.subrange(0, 4) =~= be_u32(v.traps));
    assert(w.subrange(4, 8) =~= be_u32(v.aborts));
    assert(w.subrange(8, 12) =~= be_u32(v.fuel_used));
    assert(w.subrange(12, 16) =~= be_u32(v.active_version));
}

/// Sixteen bytes decode to the slot metrics whose traps, aborts, fuel used
/// and active version are the big-endian words at offsets 0, 4, 8 and 12.
pub proof fn stats_resp_decode_layout(s: Seq<u8>)
    requires
        s.len() == 16,
    ensures
        StatsResp::parse(s) is Ok,
        StatsResp::parse(s) matches Ok(v) ==> v.traps == be_u32_at(s, 0) && v.aborts == be_u32_at(
            s,
            4,
        ) && v.fuel_used == be_u32_at(s, 8) && v.active_version == be_u32_at(s, 12),
{
}

/// Policy statistics go on the wire as thirty-eight bytes: aborts, traps,
/// annotations, effects, effects ok, commits and reverts, each big-endian in
/// four bytes, in that order; then the last commit as a big-endian value
/// (zero when absent) and a presence byte (one when present, zero when
/// absent); then the last revert the same way.
pub proof fn policy_stats_layout(v: PolicyStats)
    ensures
        v.wire_bytes().len() == 38,
        v.wire_bytes().subrange(0, 4) == be_u32(v.aborts),
        v.wire_bytes().subrange(4, 8) == be_u32(v.traps),
        v.wire_bytes().subrange(8, 12) == be_u32(v.annotations),
        v.wire_bytes().subrange(12, 16) == be_u32(v.effects),
        v.wire_bytes().subrange(16, 20) == be_u32(v.effects_ok),
        v.wire_bytes().subrange(20, 24) == be_u32(v.commits),
        v.wire_bytes().subrange(24, 28) == be_u32(v.reverts),
        v.last_commit matches Some(x) ==> v.wire_bytes().subrange(28, 32) == be_u32(x) && v.wire_bytes()[32] == 1,
        v.last_commit is None ==> v.wire_bytes().subrange(28, 32) == be_u32(0) && v.wire_bytes()[32] == 0,
        v.last_revert matches Some(x) ==> v.wire_bytes().subrange(33, 37) == be_u32(x) && v.wire_bytes()[37] == 1,
        v.last_revert is None ==> v.wire_bytes().subrange(33, 37) == be_u32(0) && v.wire_bytes()[37] == 0,
{
    let w = v.wire_bytes();
    assert(w.subrange(0, 4) =~= be_u32(v.aborts));
    assert(w.subrange(4, 8) =~= be_u32(v.traps));
    assert(w.subrange(8, 12) =~= be_u32(v.annotations));
    assert(w.subrange(12, 16) =~= be_u32(v.effects));
    assert(w.subrange(16, 20) =~= be_u32(v.effects_ok));
    assert(w.subrange(20, 24) =~= be_u32(v.commits));
    assert(w.subrange(24, 28) =~= be_u32(v.reverts));
    assert(w.subrange(28, 32) =~= be_u32(opt_value(v.last_commit)));
    assert(w.subrange(33, 37) =~= be_u32(opt_value(v.last_revert)));
}

/// Thirty-eight bytes decode to the policy statistics whose counters are the
/// big-endian words at offsets 0 (aborts), 4 (traps), 8 (annotations), 12
/// (effects), 16 (effects ok), 20 (commits) and 24 (reverts); the last
/// commit is absent when byte 32 is zero and otherwise the word at 28; the
/// last revert likewise with byte 37 and the word at 33.
pub proof fn policy_stats_decode_layout(s: Seq<u8>)
    requires
        s.len() == 38,
    ensures
        PolicyStats::parse(s) is Ok,
        PolicyStats::parse(s) matches Ok(v) ==> {
            &&& v.aborts == be_u32_at(s, 0)
            &&& v.traps == be_u32_at(s, 4)
            &&& v.annotations == be_u32_at(s, 8)
            &&& v.effects == be_u32_at(s, 12)
            &&& v.effects_ok == be_u32_at(s, 16)
            &&& v.commits == be_u32_at(s, 20)
            &&& v.reverts == be_u32_at(s, 24)
            &&& v.last_commit == (if s[32] == 0 { None } else { Some(be_u32_at(s, 28)) })
            &&& v.last_revert == (if s[37] == 0 { None } else { Some(be_u32_at(s, 33)) })
        },
{
}

/// A transition report goes on the wire as its version, big-endian in four
/// bytes, followed by the wire image of its policy statistics.
pub proof fn transition_report_layout(v: TransitionReport)
    ensures
        v.wire_bytes().len() == 42,
        v.wire_bytes().subrange(0, 4) == be_u32(v.version),
        v.wire_bytes().subrange(4, 42) == v.policy_stats.wire_bytes(),
{
    let w = v.wire_bytes();
    assert(w.subrange(0, 4) =~= be_u32(v.version));
    assert(w.subrange(4, 42) =~= v.policy_stats.wire_bytes());
}

/// Forty-two bytes decode to the transition report whose version is the
/// big-endian word at offset 0 and whose policy statistics are what the last
/// thirty-eight bytes decode to.
pub proof fn transition_report_decode_layout(s: Seq<u8>)
    requires
        s.len() == 42,
    ensures
        TransitionReport::parse(s) is Ok,
        TransitionReport::parse(s) matches Ok(v) ==> v.version == be_u32_at(s, 0)
            && PolicyStats::parse(s.subrange(4, 42)) == Ok::<PolicyStats, CodecError>(v.policy_stats),
{
}

/// A stats reply goes on the wire as the wire image of its slot metrics,
/// then the presence byte of the staged version (one when present, zero when
/// absent), then the staged version big-endian (zero when absent).
pub proof fn stats_reply_layout(v: StatsReply)
    ensures
        v.wire_bytes().len() == 21,
        v.wire_bytes().subrange(0, 16) == v.stats.wire_bytes(),
        v.staged_version matches Some(x) ==> v.wire_bytes()[16] == 1 && v.wire_bytes().subrange(17, 21) == be_u32(x),
        v.staged_version is None ==> v.wire_bytes()[16] == 0 && v.wire_bytes().subrange(17, 21) == be_u32(0),
{
    let w = v.wire_bytes();
    assert(w.subrange(0, 16) =~= v.stats.wire_bytes());
    assert(w.subrange(17, 21) =~= be_u32(opt_value(v.staged_version)));
}

/// Twenty-one bytes decode to the stats reply whose slot metrics are what
/// the first sixteen bytes decode to, and whose staged version is absent
/// when byte 16 is zero and otherwise the big-endian word at offset 17.
pub proof fn stats_reply_decode_layout(s: Seq<u8>)
    requires
        s.len() == 21,
    ensures
        StatsReply::parse(s) is Ok,
        StatsReply::parse(s) matches Ok(v) ==> StatsResp::parse(s.subrange(0, 16)) == Ok::<StatsResp, CodecError>(v.stats)
            && v.staged_version == (if s[16] == 0 { None } else { Some(be_u32_at(s, 17)) }),
{
}

/// A load header goes on the wire as the slot's wire number, then the code
/// length (four bytes), fuel limit (two bytes), memory length (two bytes)
/// and hash (four bytes), all big-endian.
pub proof fn load_begin_layout(v: LoadBegin)
    ensures
        v.wire_bytes().len() == 13,
        v.wire_bytes()[0] == slot_code(v.slot),
        v.wire_bytes().subrange(1, 5) == be_u32(v.code_len),
        v.wire_bytes().subrange(5, 7) == be_u16(v.fuel_max),
        v.wire_bytes().subrange(7, 9) == be_u16(v.mem_len),
        v.wire_bytes().subrange(9, 13) == be_u32(v.hash),
{
    let w = v.wire_bytes();
    assert(w.subrange(1, 5) =~= be_u32(v.code_len));
    assert(w.subrange(5, 7) =~= be_u16(v.fuel_max));
    assert(w.subrange(7, 9) =~= be_u16(v.mem_len));
    assert(w.subrange(9, 13) =~= be_u32(v.hash));
}

/// Thirteen bytes decode to a load header exactly when the first byte is a
/// slot number; the header's slot is the slot that byte names and its code
/// length, fuel limit, memory length and hash are the big-endian values at
/// offsets 1, 5, 7 and 9.
pub proof fn load_begin_decode_layout(s: Seq<u8>)
    requires
        s.len() == 13,
    ensures
        LoadBegin::parse(s) is Ok <==> s[0] <= 4,
        LoadBegin::parse(s) matches Ok(v) ==> {
            &&& slot_of_code(s[0]) == Ok::<PolicySlot, CodecError>(v.slot)
            &&& slot_code(v.slot) == s[0]
            &&& v.code_len == be_u32_at(s, 1)
            &&& v.fuel_max == be_u16_at(s, 5)
            &&& v.mem_len == be_u16_at(s, 7)
            &&& v.hash == be_u32_at(s, 9)
        },
{
}

/// A slot request goes on the wire as the slot's wire number alone, and one
/// byte decodes to the slot request for the slot it names.
pub proof fn slot_request_layout(v: SlotRequest, b: u8)
    ensures
        v.wire_bytes() == seq![slot_code(v.slot)],
        SlotRequest::parse(seq![b]) is Ok <==> b <= 4,
        SlotRequest::parse(seq![b]) matches Ok(r) ==> slot_code(r.slot) == b,
{
}

/// The wire image of each management error is its tag (the variant's
/// position in declaration order, from zero) followed by its fields: the
/// slot byte for an invalid slot, and two big-endian words for the chunk
/// errors (expected then got; remaining then provided).
pub proof fn mgmt_error_layout(v: MgmtError)
    ensures
        v matches MgmtError::InvalidSlot(b) ==> v.wire_bytes() == seq![0u8, b],
        v matches MgmtError::ChunkOutOfOrder { expected, got } ==> v.wire_bytes() == seq![2u8] + be_u32(expected) + be_u32(got),
        v matches MgmtError::ChunkTooLarge { remaining, provided } ==> v.wire_bytes() == seq![3u8] + be_u32(remaining) + be_u32(provided),
        v is InvalidTransition ==> v.wire_bytes() == seq![1u8],
        v is LoaderNotFinalised ==> v.wire_bytes() == seq![4u8],
        v is NoStagedImage ==> v.wire_bytes() == seq![5u8],
        v is NoActiveImage ==> v.wire_bytes() == seq![6u8],
        v is NoPreviousImage ==> v.wire_bytes() == seq![7u8],
        v is CapabilityMismatch ==> v.wire_bytes() == seq![8u8],
        v is ObserveUnavailable ==> v.wire_bytes() == seq![9u8],
        v is HostInstallFailed ==> v.wire_bytes() == seq![10u8],
        v is HostUninstallFailed ==> v.wire_bytes() == seq![11u8],
        v is StreamEnded ==> v.wire_bytes() == seq![12u8],
{
}

/// Management errors decode from their tag and fields: `[0, b]` is an
/// invalid slot `b`; tag 2 or 3 with two big-endian words is the chunk
/// error carrying those words in order; a lone tag 1 or 4 to 12 is the
/// field-less variant at that position; any other tag is unknown.
pub proof fn mgmt_error_decode_layout(b: u8, x: u32, y: u32, t: u8)
    ensures
        MgmtError::parse(seq![0u8, b]) == Ok::<MgmtError, CodecError>(MgmtError::InvalidSlot(b)),
        MgmtError::parse(seq![2u8] + be_u32(x) + be_u32(y)) == Ok::<MgmtError, CodecError>(MgmtError::ChunkOutOfOrder { expected: x, got: y }),
        MgmtError::parse(seq![3u8] + be_u32(x) + be_u32(y)) == Ok::<MgmtError, CodecError>(MgmtError::ChunkTooLarge { remaining: x, provided: y }),
        MgmtError::parse(seq![1u8]) == Ok::<MgmtError, CodecError>(MgmtError::InvalidTransition),
        MgmtError::parse(seq![4u8]) == Ok::<MgmtError, CodecError>(MgmtError::LoaderNotFinalised),
        MgmtError::parse(seq![5u8]) == Ok::<MgmtError, CodecError>(MgmtError::NoStagedImage),
        MgmtError::parse(seq![6u8]) == Ok::<MgmtError, CodecError>(MgmtError::NoActiveImage),
        MgmtError::parse(seq![7u8]) == Ok::<MgmtError, CodecError>(MgmtError::NoPreviousImage),
        MgmtError::parse(seq![8u8]) == Ok::<MgmtError, CodecError>(MgmtError::CapabilityMismatch),
        MgmtError::parse(seq![9u8]) == Ok::<MgmtError, CodecError>(MgmtError::ObserveUnavailable),
        MgmtError::parse(seq![10u8]) == Ok::<MgmtError, CodecError>(MgmtError::HostInstallFailed),
        MgmtError::parse(seq![11u8]) == Ok::<MgmtError, CodecError>(MgmtError::HostUninstallFailed),
        MgmtError::parse(seq![12u8]) == Ok::<MgmtError, CodecError>(MgmtError::StreamEnded),
        t > 12 ==> MgmtError::parse(seq![t]) == Err::<MgmtError, CodecError>(CodecError::Invalid("unknown management error tag")),
{
    mgmt_error_roundtrip(MgmtError::InvalidSlot(b));
    mgmt_error_roundtrip(MgmtError::ChunkOutOfOrder { expected: x, got: y });
    mgmt_error_roundtrip(MgmtError::ChunkTooLarge { remaining: x, provided: y });
}

/// A chunk goes on the wire as its offset (four bytes) and body length (two
/// bytes), both big-endian, then the body.
pub proof fn chunk_layout(offset: u32, body: Seq<u8>)
    requires
        body.len() <= LOAD_CHUNK_MAX,
    ensures
        chunk_wire(offset, body).len() == 6 + body.len(),
        chunk_wire(offset, body).subrange(0, 4) == be_u32(offset),
        be_u16_at(chunk_wire(offset, body), 4) as int == body.len(),
        chunk_wire(offset, body).subrange(6, 6 + body.len() as int) == body,
{
    let w = chunk_wire(offset, body);
    assert(w.subrange(0, 4) =~= be_u32(offset));
    assert(w.subrange(4, 6) =~= be_u16(body.len() as u16));
    lemma_u16_from_window(w, 4, body.len() as u16);
    assert(w.subrange(6, 6 + body.len() as int) =~= body);
}

/// A subscribe request goes on the wire as its flags, big-endian in two
/// bytes, and two bytes decode to the flags they hold big-endian.
pub proof fn subscribe_req_layout(v: SubscribeReq, s: Seq<u8>)
    requires
        s.len() == 2,
    ensures
        v.wire_bytes() == seq![(v.flags / 0x100) as u8, (v.flags % 0x100) as u8],
        SubscribeReq::parse(s) matches Ok(r) && r.flags as int == s[0] * 0x100 + s[1],
{
    lemma_be_u16_digits(v.flags);
    lemma_be_u16_value(s, 0);
}

/// A load report goes on the wire as its staged version, big-endian in four
/// bytes, and four bytes decode to the version they hold big-endian.
pub proof fn load_report_layout(v: LoadReport, s: Seq<u8>)
    requires
        s.len() == 4,
    ensures
        v.wire_bytes() == be_u32(v.staged_version),
        LoadReport::parse(s) matches Ok(r) && r.staged_version as int == s[0] * 0x100_0000 + s[1]
            * 0x1_0000 + s[2] * 0x100 + s[3],
{
    lemma_be_u32_value(s, 0);
}

} // verus!
