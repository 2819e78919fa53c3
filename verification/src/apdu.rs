//! Command and response APDU frames (ISO 7816-4): field layout, wire
//! serialization, and the status-word split of a raw response.

use vstd::prelude::*;
use crate::hexstr::{hex_upper4, hex_upper4_of};
use vstd::string::StringExecFns;

verus! {

/// A command APDU: header bytes, optional command data, optional expected
/// response length.
#[derive(Debug, Clone, PartialEq, Eq)]
pub struct ApduCommand {
    /// Class byte
    pub cla: u8,
    /// Instruction byte
    pub ins: u8,
    /// Parameter 1
    pub p1: u8,
    /// Parameter 2
    pub p2: u8,
    /// Command data (optional)
    pub data: Option<Vec<u8>>,
    /// Expected response length (Le)
    pub le: Option<u8>,
}

impl ApduCommand {
    /// Command data short enough that its length fits the single Lc byte.
    pub open spec fn wf(self) -> bool {
        match self.data {
            Some(d) => d@.len() <= 255,
            None => true,
        }
    }

    /// The wire bytes of the command: header, then Lc and the data when
    /// data is present, then Le when it is present.
    pub open spec fn serialized(self) -> Seq<u8> {
        seq![self.cla, self.ins, self.p1, self.p2] + (match self.data {
            Some(d) => seq![d@.len() as u8] + d@,
            None => Seq::empty(),
        }) + (match self.le {
            Some(le) => seq![le],
            None => Seq::empty(),
        })
    }

    /// Create a new command from its four header bytes, with no data and no
    /// expected length.
    pub fn new(cla: u8, ins: u8, p1: u8, p2: u8) -> (r: Self)
        ensures
            r.cla == cla,
            r.ins == ins,
            r.p1 == p1,
            r.p2 == p2,
            r.data is None,
            r.le is None,
    {
        ApduCommand { cla, ins, p1, p2, data: None, le: None }
    }

    /// Set the command data.
    pub fn with_data(self, data: Vec<u8>) -> (r: Self)
        requires
            data@.len() <= 255,
        ensures
            r.cla == self.cla,
            r.ins == self.ins,
            r.p1 == self.p1,
            r.p2 == self.p2,
            r.data matches Some(d) && d@ == data@,
            r.le == self.le,
            r.wf(),
    {
        ApduCommand {
            cla: self.cla,
            ins: self.ins,
            p1: self.p1,
            p2: self.p2,
            data: Some(data),
            le: self.le,
        }
    }

    /// Set the expected response length.
    pub fn with_le(self, le: u8) -> (r: Self)
        ensures
            r.cla == self.cla,
            r.ins == self.ins,
            r.p1 == self.p1,
            r.p2 == self.p2,
            r.data == self.data,
            r.le == Some(le),
    {
        ApduCommand {
            cla: self.cla,
            ins: self.ins,
            p1: self.p1,
            p2: self.p2,
            data: self.data,
            le: Some(le),
        }
    }

    /// Serialize the command to its wire bytes.
    pub fn to_bytes(&self) -> (r: Vec<u8>)
        requires
            self.wf(),
        ensures
            r@ == self.serialized(),
    {
        let mut bytes: Vec<u8> = Vec::new();
        bytes.push(self.cla);
        bytes.push(self.ins);
        bytes.push(self.p1);
        bytes.push(self.p2);
        let ghost header = seq![self.cla, self.ins, self.p1, self.p2];
        proof {
            assert(bytes@ =~= header);
        }
        if let Some(data) = &self.data {
            bytes.push(data.len() as u8);
            let ghost with_lc = header + seq![data@.len() as u8];
            proof {
                assert(bytes@ =~= with_lc);
            }
            let mut i: usize = 0;
            while i < data.len()
                invariant
                    i <= data@.len(),
                    with_lc == header + seq![data@.len() as u8],
                    bytes@ == with_lc + data@.take(i as int),
                decreases data@.len() - i,
            {
                bytes.push(data[i]);
                proof {
                    assert(with_lc + data@.take(i + 1) =~= (with_lc + data@.take(i as int)).push(
                        data@[i as int],
                    ));
                }
                i += 1;
            }
            proof {
                assert(data@.take(data@.len() as int) =~= data@);
            }
        }
        if let Some(le) = self.le {
            bytes.push(le);
        }
        proof {
            assert(bytes@ =~= self.serialized());
        }
        bytes
    }
}

/// A response APDU: payload bytes followed by the two status bytes.
#[derive(Debug, Clone, PartialEq, Eq)]
pub struct ApduResponse {
    /// Response data
    pub data: Vec<u8>,
    /// Status word 1
    pub sw1: u8,
    /// Status word 2
    pub sw2: u8,
}

impl ApduResponse {
    /// The 16-bit status word: status byte 1 in the high byte, status byte
    /// 2 in the low byte.
    pub open spec fn spec_status_word(self) -> u16 {
        ((self.sw1 as int) * 256 + (self.sw2 as int)) as u16
    }

    /// Splits a raw response frame: the last two bytes are the status word,
    /// everything before them is the payload.  A frame shorter than two
    /// bytes cannot be split and is rejected.
    pub fn from_bytes(bytes: &[u8]) -> (r: Result<Self, String>)
        ensures
            (match r {
                Ok(resp) => bytes@.len() >= 2 && resp.data@ == bytes@.take(bytes@.len() - 2)
                    && resp.sw1 == bytes@[bytes@.len() - 2] && resp.sw2 == bytes@[bytes@.len()
                    - 1],
                Err(m) => bytes@.len() < 2 && m@ == "Response too short"@,
            }),
    {
        if bytes.len() < 2 {
            return Err(String::from_str("Response too short"));
        }
        let len = bytes.len();
        let data = vstd::slice::slice_to_vec(vstd::slice::slice_subrange(bytes, 0, len - 2));
        proof {
            assert(data@ =~= bytes@.take(bytes@.len() - 2));
        }
        Ok(ApduResponse { data, sw1: bytes[len - 2], sw2: bytes[len - 1] })
    }

    /// Whether the response reports success: exactly the status word
    /// 0x9000, and no other.
    pub fn is_success(&self) -> (r: bool)
        ensures
            r == (self.spec_status_word() == 0x9000),
    {
        self.sw1 == 0x90 && self.sw2 == 0x00
    }

    /// The 16-bit status word of the response.
    pub fn status_word(&self) -> (r: u16)
        ensures
            r == self.spec_status_word(),
    {
        (self.sw1 as u16) * 256 + (self.sw2 as u16)
    }
}

/// The message carried by a response whose status word is not 0x9000.
pub open spec fn apdu_error_message(sw: u16) -> Seq<char> {
    "APDU error: SW="@ + hex_upper4_of(sw)
}

/// Renders the error message for a non-success status word.
pub fn apdu_error_string(sw: u16) -> (r: String)
    ensures
        r@ == apdu_error_message(sw),
{
    let mut m = String::from_str("APDU error: SW=");
    let digits = hex_upper4(sw);
    m.append(digits.as_str());
    m
}

} // verus!
