//! Host-side U2F HID client: frame codec, framed transport, device session
//! and the extended-length APDU layer, with machine-checked contracts.

pub mod apdu;
pub mod device;
pub mod errors;
pub mod fragment;
pub mod reassembly;
pub mod roundtrip;
pub mod u2f_frame;
pub mod u2f_hid_framed_transport;
pub mod wire;

pub use apdu::APDU;
pub use device::{Device, HIDDeviceInfo, HidInterface, U2FDeviceInfo};
pub use errors::{Error, IoCause, ProtocolCause};
pub use u2f_frame::{U2FFrame, U2FFrameContent};
pub use u2f_hid_framed_transport::U2FHidFramedTransport;

use vstd::prelude::*;

verus! {

/// Commands of the U2F HID transport.
#[derive(Debug, PartialEq, Eq, Copy, Clone)]
pub enum HidCmd {
    Ping,
    Msg,
    Lock,
    Init,
    Wink,
    Error,
}

/// Instructions that an authenticator understands.
#[derive(Debug, PartialEq, Eq, Copy, Clone)]
pub enum U2FINS {
    Register,
    Authenticate,
    Version,
    VendorFirst,
    VendorLast,
}

impl HidCmd {
    /// The command's number on the wire.
    pub open spec fn spec_code(self) -> u8 {
        match self {
            HidCmd::Ping => 0x01,
            HidCmd::Msg => 0x03,
            HidCmd::Lock => 0x04,
            HidCmd::Init => 0x06,
            HidCmd::Wink => 0x08,
            HidCmd::Error => 0x3f,
        }
    }

    /// The command's number on the wire.
    #[verifier::when_used_as_spec(spec_code)]
    pub fn code(self) -> (code: u8)
        ensures
            code == self.spec_code(),
            code < 0x80,
    {
        match self {
            HidCmd::Ping => 0x01,
            HidCmd::Msg => 0x03,
            HidCmd::Lock => 0x04,
            HidCmd::Init => 0x06,
            HidCmd::Wink => 0x08,
            HidCmd::Error => 0x3f,
        }
    }
}

impl U2FINS {
    /// The instruction byte of the APDU.
    pub open spec fn spec_code(self) -> u8 {
        match self {
            U2FINS::Register => 0x01,
            U2FINS::Authenticate => 0x02,
            U2FINS::Version => 0x03,
            U2FINS::VendorFirst => 0x40,
            U2FINS::VendorLast => 0x7f,
        }
    }

    /// The instruction byte of the APDU.
    #[verifier::when_used_as_spec(spec_code)]
    pub fn code(self) -> (code: u8)
        ensures
            code == self.spec_code(),
    {
        match self {
            U2FINS::Register => 0x01,
            U2FINS::Authenticate => 0x02,
            U2FINS::Version => 0x03,
            U2FINS::VendorFirst => 0x40,
            U2FINS::VendorLast => 0x7f,
        }
    }
}

} // verus!
