//! Control kinds owned by the management protocol: the route decisions of
//! the management choreography and the load begin / commit capabilities,
//! with the layouts of their capability handles.
use vstd::prelude::*;

use crate::wire::{
    le_u16, le_u16_at, le_u32, le_u32_at, le_u64, le_u64_at, get_u16_le, get_u32_le, get_u64_le,
    lemma_le_u16_roundtrip, lemma_le_u32_roundtrip, lemma_le_u64_roundtrip, lemma_splice_concat,
    lemma_le_u16_value, lemma_le_u32_value, lemma_le_u64_value,
    put_u16_le, put_u32_le, put_u64_le, put_u8,
};

verus! {

/// Bytes a capability token reserves for a resource handle.
pub const CAP_HANDLE_LEN: usize = 23;

/// Label of the load-begin control message.
pub const LABEL_MGMT_LOAD_BEGIN: u8 = 110;

/// Label of the load-commit control message.
pub const LABEL_MGMT_LOAD_COMMIT: u8 = 111;

/// Tap identifier of the load-begin control message.
pub const TAP_MGMT_LOAD_BEGIN: u16 = 0x0300 + 110;

/// Tap identifier of the load-commit control message.
pub const TAP_MGMT_LOAD_COMMIT: u16 = 0x0300 + 111;

/// Handle of a management route decision: the chosen arm and the scope.
pub type MgmtRouteHandle = (u8, u64);

/// `n` zero bytes.
pub open spec fn zeros(n: nat) -> Seq<u8> {
    Seq::new(n, |i: int| 0u8)
}

/// Handle image of a route decision: the arm byte, the scope little-endian,
/// zero padding.
pub open spec fn route_handle_image(handle: MgmtRouteHandle) -> Seq<u8> {
    seq![handle.0] + le_u64(handle.1) + zeros(14)
}

/// The route decision named by a handle image.
pub open spec fn route_handle_of(data: Seq<u8>) -> MgmtRouteHandle {
    (data[0], le_u64_at(data, 1))
}

/// Handle image of a load commit: the session little-endian, the lane
/// little-endian, zero padding.
pub open spec fn commit_handle_image(handle: (u32, u16)) -> Seq<u8> {
    le_u32(handle.0) + le_u16(handle.1) + zeros(17)
}

/// The load commit named by a handle image.
pub open spec fn commit_handle_of(data: Seq<u8>) -> (u32, u16) {
    (le_u32_at(data, 0), le_u16_at(data, 4))
}

/// Encodes a route decision handle.
pub fn encode_route_handle(handle: MgmtRouteHandle) -> (r: [u8; CAP_HANDLE_LEN])
    ensures
        r@ == route_handle_image(handle),
{
    let mut buf = [0u8; CAP_HANDLE_LEN];
    let ghost s0 = buf@;
    assert(s0 =~= zeros(23));
    {
        let out = vstd::array::ref_mut_array_unsizing_coercion(&mut buf);
        put_u8(out, 0, handle.0);
        put_u64_le(out, 1, handle.1);
    }
    proof {
        lemma_splice_concat(s0, 0, seq![handle.0], le_u64(handle.1));
        assert(buf@ =~= route_handle_image(handle));
    }
    buf
}

/// Decodes a route decision handle.
pub fn decode_route_handle(data: [u8; CAP_HANDLE_LEN]) -> (r: MgmtRouteHandle)
    ensures
        r == route_handle_of(data@),
{
    let s = vstd::array::array_as_slice(&data);
    (s[0], get_u64_le(s, 1))
}

/// Route decision control of the management choreography; `LABEL` is the
/// decision's label and `ARM` the arm it selects.
#[derive(Clone, Copy, Debug, PartialEq, Eq)]
pub struct MgmtRouteKind<const LABEL: u8, const ARM: u8>;

impl<const LABEL: u8, const ARM: u8> MgmtRouteKind<LABEL, ARM> {
    /// The decision's label.
    pub fn label() -> (r: u8)
        ensures
            r == LABEL,
    {
        LABEL
    }

    pub fn encode_handle(handle: &MgmtRouteHandle) -> (r: [u8; CAP_HANDLE_LEN])
        ensures
            r@ == route_handle_image(*handle),
    {
        encode_route_handle(*handle)
    }

    pub fn decode_handle(data: [u8; CAP_HANDLE_LEN]) -> (r: MgmtRouteHandle)
        ensures
            r == route_handle_of(data@),
    {
        decode_route_handle(data)
    }

    pub fn zeroize(handle: &mut MgmtRouteHandle)
        ensures
            *final(handle) == (0u8, 0u64),
    {
        *handle = (0, 0);
    }

    /// The handle minted for a decision in `scope`: this kind's arm and the
    /// scope.
    pub fn mint_handle(scope: u64) -> (r: MgmtRouteHandle)
        ensures
            r == (ARM, scope),
    {
        (ARM, scope)
    }
}

/// Capability that opens an image load.
#[derive(Clone, Copy, Debug, PartialEq, Eq)]
pub struct LoadBeginKind;

impl LoadBeginKind {
    /// Capability tag of a load begin.
    pub const TAG: u8 = 0x50;

    /// The handle image: all zero, since the handle carries nothing.
    pub fn encode_handle(handle: &()) -> (r: [u8; CAP_HANDLE_LEN])
        ensures
            r@ == zeros(23),
    {
        let buf = [0u8; CAP_HANDLE_LEN];
        assert(buf@ =~= zeros(23));
        buf
    }

    pub fn decode_handle(data: [u8; CAP_HANDLE_LEN]) -> (r: ()) {
        ()
    }

    pub fn zeroize(handle: &mut ()) {
    }

    pub fn mint_handle() -> (r: ()) {
        ()
    }
}

/// Capability that commits an image load.
#[derive(Clone, Copy, Debug, PartialEq, Eq)]
pub struct LoadCommitKind;

impl LoadCommitKind {
    /// Capability tag of a load commit.
    pub const TAG: u8 = 0x51;

    pub fn encode_handle(handle: &(u32, u16)) -> (r: [u8; CAP_HANDLE_LEN])
        ensures
            r@ == commit_handle_image(*handle),
    {
        let mut buf = [0u8; CAP_HANDLE_LEN];
        let ghost s0 = buf@;
        assert(s0 =~= zeros(23));
        {
            let out = vstd::array::ref_mut_array_unsizing_coercion(&mut buf);
            put_u32_le(out, 0, handle.0);
            put_u16_le(out, 4, handle.1);
        }
        proof {
            lemma_splice_concat(s0, 0, le_u32(handle.0), le_u16(handle.1));
            assert(buf@ =~= commit_handle_image(*handle));
        }
        buf
    }

    pub fn decode_handle(data: [u8; CAP_HANDLE_LEN]) -> (r: (u32, u16))
        ensures
            r == commit_handle_of(data@),
    {
        let s = vstd::array::array_as_slice(&data);
        (get_u32_le(s, 0), get_u16_le(s, 4))
    }

    pub fn zeroize(handle: &mut (u32, u16))
        ensures
            *final(handle) == *old(handle),
    {
    }

    /// The handle minted for a commit on `lane` of `session`: the session
    /// and the lane's low sixteen bits.
    pub fn mint_handle(session: u32, lane: u32) -> (r: (u32, u16))
        ensures
            r == (session, lane as u16),
    {
        (session, lane as u16)
    }
}

/// Decoding the handle image of a route decision gives it back.
pub proof fn route_handle_roundtrip(handle: MgmtRouteHandle)
    ensures
        route_handle_of(route_handle_image(handle)) == handle,
{
    let img = route_handle_image(handle);
    lemma_le_u64_roundtrip(handle.1);
    let w = le_u64(handle.1);
    assert(forall|i: int| 0 <= i < 8 ==> img[1 + i] == w[i]);
    assert(le_u64_at(img, 1) == le_u64_at(w, 0));
}

/// Decoding the handle image of a load commit gives it back.
pub proof fn commit_handle_roundtrip(handle: (u32, u16))
    ensures
        commit_handle_of(commit_handle_image(handle)) == handle,
{
    let img = commit_handle_image(handle);
    lemma_le_u32_roundtrip(handle.0);
    lemma_le_u16_roundtrip(handle.1);
    let a = le_u32(handle.0);
    let b = le_u16(handle.1);
    assert(img[0] == a[0] && img[1] == a[1] && img[2] == a[2] && img[3] == a[3]);
    assert(img[4] == b[0] && img[5] == b[1]);
}

/// A route decision handle is twenty-three bytes: the arm, the scope
/// little-endian in the next eight bytes, and zero padding.
pub proof fn route_handle_layout(handle: MgmtRouteHandle)
    ensures
        route_handle_image(handle).len() == 23,
        route_handle_image(handle)[0] == handle.0,
        route_handle_image(handle).subrange(1, 9) == le_u64(handle.1),
        forall|i: int| 9 <= i < 23 ==> #[trigger] route_handle_image(handle)[i] == 0,
{
    let img = route_handle_image(handle);
    assert(img.subrange(1, 9) =~= le_u64(handle.1));
}

/// A route decision handle decodes to the arm in its first byte and the
/// scope read little-endian from the next eight bytes, that is the sum of
/// those bytes weighted by increasing powers of 256.
pub proof fn route_handle_fields(data: Seq<u8>)
    requires
        data.len() == 23,
    ensures
        route_handle_of(data).0 == data[0],
        route_handle_of(data).1 == le_u64_at(data, 1),
        route_handle_of(data).1 as int == data[1] + data[2] * 0x100 + data[3] * 0x1_0000 + data[4]
            * 0x100_0000 + data[5] * 0x1_0000_0000 + data[6] * 0x100_0000_0000 + data[7]
            * 0x1_0000_0000_0000 + data[8] * 0x100_0000_0000_0000,
{
    lemma_le_u64_value(data, 1);
}

/// A load commit handle is twenty-three bytes: the session little-endian in
/// four bytes, the lane little-endian in two, and zero padding; it decodes
/// to the values read back from those places.
pub proof fn commit_handle_layout(handle: (u32, u16), data: Seq<u8>)
    requires
        data.len() == 23,
    ensures
        commit_handle_image(handle).len() == 23,
        commit_handle_image(handle).subrange(0, 4) == le_u32(handle.0),
        commit_handle_image(handle).subrange(4, 6) == le_u16(handle.1),
        forall|i: int| 6 <= i < 23 ==> #[trigger] commit_handle_image(handle)[i] == 0,
        commit_handle_of(data).0 as int == data[0] + data[1] * 0x100 + data[2] * 0x1_0000 + data[3]
            * 0x100_0000,
        commit_handle_of(data).1 as int == data[4] + data[5] * 0x100,
{
    let img = commit_handle_image(handle);
    assert(img.subrange(0, 4) =~= le_u32(handle.0));
    assert(img.subrange(4, 6) =~= le_u16(handle.1));
    lemma_le_u32_value(data, 0);
    lemma_le_u16_value(data, 4);
}

} // verus!
