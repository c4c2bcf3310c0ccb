//! The choice of a reduction backend.
//!
//! Which backend is the fastest depends on the processor, so the choice is
//! made once, when the first reduction runs, and kept for good. This module
//! holds the rules of that choice and none of its state: the embedding
//! program owns the cell that a [`Selector`] lives in, reads the processor's
//! registers, and asks here what they mean.
//!
//! A selector starts out [`Selector::Uninitialized`]. [`Selector::action`]
//! then asks for a probe, and [`Selector::bind`] takes the probe's answer to
//! the state [`Selector::Bound`], which no later call leaves. Binding is a
//! function of the answer alone. Callers that race to bind the same cell
//! therefore write the same state, and whichever state a caller reads, the
//! backend that it is sent to returns the same element.

use vstd::prelude::*;
use crate::definition::M61;
use crate::digits::residue;
use crate::simd::Width;
use crate::Reducible;

verus! {

/// The feature level that stands for "not probed yet".
pub const UNINIT: u8 = 0;

/// The feature level of a processor with SSE2 and nothing wider.
pub const SSE2: u8 = 1;

/// The feature level of a processor with AVX2 whose wide registers the
/// operating system saves.
pub const AVX2: u8 = 2;

/// The feature level of a processor with AVX-512F whose wide registers the
/// operating system saves.
pub const AVX512: u8 = 3;

/// Bits 26 and 27 of `ecx` of `cpuid` leaf 1: the processor has `xsave`,
/// and the operating system uses it.
pub const XSAVE_BITS: u32 = 0x0C00_0000;

/// Bits 1 and 2 of the extended control register 0: the registers of SSE
/// and the upper halves that AVX adds are saved.
pub const XCR0_AVX: u64 = 6;

/// Bits 5, 6 and 7 of the extended control register 0: the registers of
/// AVX-512 are saved.
pub const XCR0_AVX512: u64 = 224;

/// Bit 5 of `ebx` of `cpuid` leaf 7: AVX2.
pub const LEAF7_AVX2: u32 = 0x20;

/// Bit 16 of `ebx` of `cpuid` leaf 7: AVX-512F.
pub const LEAF7_AVX512F: u32 = 0x1_0000;

/// Whether the extended control register may be read at all: one of the
/// two bits of `xsave` is set.
pub open spec fn extended_state(leaf1_ecx: u32) -> bool {
    leaf1_ecx & XSAVE_BITS != 0
}

/// Whether the registers say that AVX2 can be used.
pub open spec fn avx2_usable(leaf1_ecx: u32, xcr0: u64, leaf7_ebx: u32) -> bool {
    extended_state(leaf1_ecx) && xcr0 & XCR0_AVX == XCR0_AVX && leaf7_ebx & LEAF7_AVX2 != 0
}

/// Whether the registers say that AVX-512F can be used.
pub open spec fn avx512f_usable(leaf1_ecx: u32, xcr0: u64, leaf7_ebx: u32) -> bool {
    extended_state(leaf1_ecx) && xcr0 & XCR0_AVX512 == XCR0_AVX512 && leaf7_ebx & LEAF7_AVX512F
        != 0
}

/// Tells from `ecx` of `cpuid` leaf 1 whether the extended control register
/// may be read. Where it may not, [`get_features`] does not look at the
/// other two registers.
pub fn has_extended_state(leaf1_ecx: u32) -> (yes: bool)
    ensures
        yes == extended_state(leaf1_ecx),
{
    leaf1_ecx & XSAVE_BITS != 0
}

/// Works out the feature level from `ecx` of `cpuid` leaf 1, the extended
/// control register 0 and `ebx` of `cpuid` leaf 7.
pub fn get_features(leaf1_ecx: u32, xcr0: u64, leaf7_ebx: u32) -> (content: u8)
    ensures
        content == (if avx512f_usable(leaf1_ecx, xcr0, leaf7_ebx) {
            AVX512
        } else if avx2_usable(leaf1_ecx, xcr0, leaf7_ebx) {
            AVX2
        } else {
            SSE2
        }),
{
    let mut content = SSE2;
    if leaf1_ecx & XSAVE_BITS != 0 {
        if xcr0 & XCR0_AVX == XCR0_AVX && leaf7_ebx & LEAF7_AVX2 != 0 {
            content = AVX2;
        }
        if xcr0 & XCR0_AVX512 == XCR0_AVX512 && leaf7_ebx & LEAF7_AVX512F != 0 {
            content = AVX512;
        }
    }
    content
}

/// Whether a feature level includes AVX2.
pub fn has_avx2(level: u8) -> (yes: bool)
    ensures
        yes == (level >= AVX2),
{
    level >= AVX2
}

/// Whether a feature level includes AVX-512F.
pub fn has_avx512f(level: u8) -> (yes: bool)
    ensures
        yes == (level >= AVX512),
{
    level >= AVX512
}

/// A reduction backend.
#[derive(Clone, Copy, PartialEq, Eq, Debug, Structural)]
pub enum Backend {
    /// The scalar engine.
    Scalar,
    /// The vector engine on super-digits of 128 bits.
    Vector128,
    /// The vector engine on super-digits of 256 bits.
    Vector256,
    /// The vector engine on super-digits of 512 bits.
    Vector512,
}

/// The backend for a processor with the given vector widths: the widest
/// one that it has, and the scalar engine where it has none.
pub open spec fn select_spec(vector128: bool, vector256: bool, vector512: bool) -> Backend {
    if vector512 {
        Backend::Vector512
    } else if vector256 {
        Backend::Vector256
    } else if vector128 {
        Backend::Vector128
    } else {
        Backend::Scalar
    }
}

/// Picks the backend for a processor with the given vector widths.
#[verifier::when_used_as_spec(select_spec)]
pub fn select(vector128: bool, vector256: bool, vector512: bool) -> (backend: Backend)
    ensures
        backend == select_spec(vector128, vector256, vector512),
{
    let mut backend = Backend::Scalar;
    if vector128 {
        backend = Backend::Vector128;
    }
    if vector256 {
        backend = Backend::Vector256;
    }
    if vector512 {
        backend = Backend::Vector512;
    }
    backend
}

impl Backend {
    /// The width of the super-digits that the backend works on, where it is
    /// a vector backend.
    pub fn width(self) -> (width: Option<Width>)
        ensures
            width == (match self {
                Backend::Scalar => None,
                Backend::Vector128 => Some(Width::W128),
                Backend::Vector256 => Some(Width::W256),
                Backend::Vector512 => Some(Width::W512),
            }),
    {
        match self {
            Backend::Scalar => None,
            Backend::Vector128 => Some(Width::W128),
            Backend::Vector256 => Some(Width::W256),
            Backend::Vector512 => Some(Width::W512),
        }
    }

    /// Reduces a number given by its digits on this backend. The result
    /// does not depend on the backend.
    pub fn reduce<D: Reducible>(self, s: &[D]) -> (r: M61)
        ensures
            r@ == residue(s@),
    {
        match self.width() {
            None => D::reduce(s),
            Some(width) => crate::simd::reduce(s, width),
        }
    }
}

/// What a caller has to do next.
#[derive(Clone, Copy, PartialEq, Eq, Debug, Structural)]
pub enum Action {
    /// Probe the processor and bind the selector.
    Probe,
    /// Run the reduction on this backend.
    Dispatch(Backend),
}

/// The state of the choice.
#[derive(Clone, Copy, PartialEq, Eq, Debug, Structural)]
pub enum Selector {
    /// No probe has been made.
    Uninitialized,
    /// The backend has been chosen.
    Bound(Backend),
}

impl Selector {
    /// The state that every selector starts in.
    pub fn new() -> (selector: Selector)
        ensures
            selector == Selector::Uninitialized,
    {
        Selector::Uninitialized
    }

    /// What a caller that reads this state has to do.
    pub fn action(self) -> (action: Action)
        ensures
            action == (match self {
                Selector::Uninitialized => Action::Probe,
                Selector::Bound(backend) => Action::Dispatch(backend),
            }),
    {
        match self {
            Selector::Uninitialized => Action::Probe,
            Selector::Bound(backend) => Action::Dispatch(backend),
        }
    }

    /// The state after a probe: bound to the backend that [`select`] picks,
    /// whatever the state was before.
    pub open spec fn bind_spec(
        self,
        vector128: bool,
        vector256: bool,
        vector512: bool,
    ) -> Selector {
        Selector::Bound(select(vector128, vector256, vector512))
    }

    /// The state after a probe: bound to the backend that [`select`] picks,
    /// whatever the state was before.
    #[verifier::when_used_as_spec(bind_spec)]
    pub fn bind(self, vector128: bool, vector256: bool, vector512: bool) -> (next: Selector)
        ensures
            next == self.bind_spec(vector128, vector256, vector512),
    {
        Selector::Bound(select(vector128, vector256, vector512))
    }

    /// The state as one byte, for a cell that is read and written
    /// atomically.
    pub open spec fn encode_spec(self) -> u8 {
        match self {
            Selector::Uninitialized => 0,
            Selector::Bound(Backend::Scalar) => 1,
            Selector::Bound(Backend::Vector128) => 2,
            Selector::Bound(Backend::Vector256) => 3,
            Selector::Bound(Backend::Vector512) => 4,
        }
    }

    /// The state as one byte.
    #[verifier::when_used_as_spec(encode_spec)]
    pub fn encode(self) -> (tag: u8)
        ensures
            tag == self.encode_spec(),
    {
        match self {
            Selector::Uninitialized => 0,
            Selector::Bound(Backend::Scalar) => 1,
            Selector::Bound(Backend::Vector128) => 2,
            Selector::Bound(Backend::Vector256) => 3,
            Selector::Bound(Backend::Vector512) => 4,
        }
    }

    /// The state that a byte stands for. A byte that no state is encoded as
    /// stands for the first state, so that a probe follows.
    pub open spec fn decode_spec(tag: u8) -> Selector {
        if tag == 1 {
            Selector::Bound(Backend::Scalar)
        } else if tag == 2 {
            Selector::Bound(Backend::Vector128)
        } else if tag == 3 {
            Selector::Bound(Backend::Vector256)
        } else if tag == 4 {
            Selector::Bound(Backend::Vector512)
        } else {
            Selector::Uninitialized
        }
    }

    /// The state that a byte stands for.
    #[verifier::when_used_as_spec(decode_spec)]
    pub fn decode(tag: u8) -> (selector: Selector)
        ensures
            selector == Selector::decode_spec(tag),
    {
        match tag {
            1 => Selector::Bound(Backend::Scalar),
            2 => Selector::Bound(Backend::Vector128),
            3 => Selector::Bound(Backend::Vector256),
            4 => Selector::Bound(Backend::Vector512),
            _ => Selector::Uninitialized,
        }
    }
}

/// Binding is idempotent: callers that bind a selector to the same probe,
/// in any number and from any state, leave it in one and the same state,
/// the one that sends every later caller to the selected backend.
pub proof fn lemma_bind_idempotent(
    selector: Selector,
    other: Selector,
    vector128: bool,
    vector256: bool,
    vector512: bool,
)
    ensures
        selector.bind(vector128, vector256, vector512) == other.bind(
            vector128,
            vector256,
            vector512,
        ),
        selector.bind(vector128, vector256, vector512).bind(vector128, vector256, vector512)
            == selector.bind(vector128, vector256, vector512),
        selector.bind(vector128, vector256, vector512) != Selector::Uninitialized,
{
}

/// A state survives being kept in a byte.
pub proof fn lemma_decode_encode(selector: Selector)
    ensures
        Selector::decode(selector.encode()) == selector,
{
}

} // verus!
