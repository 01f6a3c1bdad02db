//! Kind detector: classifies a wasm binary as a core module or an
//! already-assembled component from the 4-byte version field that follows
//! the magic header.

use vstd::prelude::*;
use crate::errors::{ErrorModel, MalformedKind, PipelineError};
use crate::scanner::spec_magic;

verus! {

/// How a binary encodes its contents.
#[derive(Clone, Copy, PartialEq, Eq, Structural, Debug)]
pub enum BinaryKind {
    /// A plain compiled wasm module.
    CoreModule,
    /// A binary of the component model.
    Component,
}

/// The buffer holds at least the 8-byte header and starts with the magic.
pub open spec fn spec_header_ok(b: Seq<u8>) -> bool {
    b.len() >= 8 && b.subrange(0, 4) == spec_magic()
}

/// The classification encoded in bytes 4 to 8: version 1 of layer 0 is a
/// core module, version 13 of layer 1 is a component, anything else is
/// unsupported.
pub open spec fn spec_kind(b: Seq<u8>) -> Option<BinaryKind> {
    if b[4] == 0x01 && b[5] == 0x00 && b[6] == 0x00 && b[7] == 0x00 {
        Some(BinaryKind::CoreModule)
    } else if b[4] == 0x0d && b[5] == 0x00 && b[6] == 0x01 && b[7] == 0x00 {
        Some(BinaryKind::Component)
    } else {
        None
    }
}

/// Reads the header and classifies the binary. A buffer too short for the
/// header, or one without the magic, is malformed; a version field that
/// encodes neither kind is unsupported.
pub fn detect_kind(b: &[u8]) -> (r: Result<BinaryKind, PipelineError>)
    ensures
        match r {
            Ok(k) => spec_header_ok(b@) && spec_kind(b@) == Some(k),
            Err(e) => if spec_header_ok(b@) {
                spec_kind(b@) is None && e@ == ErrorModel::Unsupported
            } else {
                e@ == ErrorModel::Malformed(MalformedKind::Header)
            },
        },
{
    if b.len() < 8 {
        return Err(PipelineError::MalformedBinary { fault: MalformedKind::Header });
    }
    if !(b[0] == 0x00 && b[1] == 0x61 && b[2] == 0x73 && b[3] == 0x6d) {
        proof {
            if b@.subrange(0, 4) == spec_magic() {
                assert(b@.subrange(0, 4)[0] == b@[0] && b@.subrange(0, 4)[1] == b@[1]
                    && b@.subrange(0, 4)[2] == b@[2] && b@.subrange(0, 4)[3] == b@[3]);
            }
        }
        return Err(PipelineError::MalformedBinary { fault: MalformedKind::Header });
    }
    proof {
        assert(b@.subrange(0, 4) =~= spec_magic());
    }
    if b[4] == 0x01 && b[5] == 0x00 && b[6] == 0x00 && b[7] == 0x00 {
        Ok(BinaryKind::CoreModule)
    } else if b[4] == 0x0d && b[5] == 0x00 && b[6] == 0x01 && b[7] == 0x00 {
        Ok(BinaryKind::Component)
    } else {
        Err(PipelineError::UnsupportedBinary)
    }
}

} // verus!
