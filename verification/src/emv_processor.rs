//! The terminal-side EMV operations: the five command builders, response
//! validation, and card-attribute extraction from TLV payloads.

use vstd::prelude::*;
use vstd::slice::slice_subrange;
use vstd::string::StringExecFns;
use crate::apdu::{apdu_error_message, apdu_error_string, ApduCommand, ApduResponse};
use crate::hexstr::{
    hex_digit_lower_char, hex_encode, hex_lower_of, lemma_strip_ff_byte, lemma_strip_full,
    lemma_strip_half_byte, strip_trailing_f,
};
use crate::tlv::{find_tag, parse_tlvs, tlv_error_message, Tlv};

verus! {

/// Card attributes extracted from a TLV payload.
#[derive(Debug, Clone, PartialEq, Eq)]
pub struct CardData {
    /// Primary Account Number
    pub pan: String,
    /// Card expiry date (YYMM)
    pub expiry: String,
    /// Cardholder name (optional)
    pub cardholder_name: Option<String>,
    /// Track 2 equivalent data
    pub track2: Option<String>,
    /// Application ID (AID), supplied by the caller
    pub aid: String,
    /// Application label
    pub app_label: Option<String>,
}

/// The PAN text of a raw value: its lower-case hex digits with the trailing
/// padding digits `'f'`/`'F'` stripped from the right end.
pub open spec fn pan_text(value: Seq<u8>) -> Seq<char> {
    strip_trailing_f(hex_lower_of(value))
}

/// The expiry text of a raw value: the four lower-case hex digits of its
/// first two bytes (YYMM), or nothing when fewer than two bytes are
/// present.
pub open spec fn expiry_text(value: Seq<u8>) -> Seq<char> {
    if value.len() >= 2 {
        hex_lower_of(value.take(2))
    } else {
        Seq::empty()
    }
}

/// What `String::from_utf8_lossy` decodes a byte sequence to.
pub uninterp spec fn utf8_lossy_of(bytes: Seq<u8>) -> Seq<char>;

/// Relies on `String::from_utf8_lossy`: the decoded text depends on the
/// bytes alone, invalid sequences are replaced rather than reported, and no
/// bytes decode to no text.
#[verifier::external_body]
fn utf8_lossy(bytes: &[u8]) -> (r: String)
    ensures
        r@ == utf8_lossy_of(bytes@),
        bytes@.len() == 0 ==> r@.len() == 0,
{
    String::from_utf8_lossy(bytes).to_string()
}

/// The data field of a SELECT PPSE command: the ASCII bytes of
/// "2PAY.SYS.DDF01".
pub open spec fn ppse_name() -> Seq<u8> {
    seq![
        0x32u8, 0x50u8, 0x41u8, 0x59u8, 0x2Eu8, 0x53u8, 0x59u8, 0x53u8, 0x2Eu8, 0x44u8, 0x44u8,
        0x46u8, 0x30u8, 0x31u8,
    ]
}

/// Builds EMV command APDUs and interprets card responses for one
/// terminal.  The terminal country and currency codes are configuration
/// carried for future command types; none of the current five layouts
/// consumes them.
#[derive(Debug, Clone, PartialEq, Eq)]
pub struct EmvProcessor {
    terminal_country_code: String,
    terminal_currency_code: String,
}

impl EmvProcessor {
    /// The terminal country code this processor was configured with.
    pub closed spec fn spec_country_code(&self) -> Seq<char> {
        self.terminal_country_code@
    }

    /// The terminal currency code this processor was configured with.
    pub closed spec fn spec_currency_code(&self) -> Seq<char> {
        self.terminal_currency_code@
    }

    /// Creates a processor carrying the terminal's country and currency
    /// codes.
    pub fn new(country_code: String, currency_code: String) -> (r: Self)
        ensures
            r.spec_country_code() == country_code@,
            r.spec_currency_code() == currency_code@,
    {
        EmvProcessor {
            terminal_country_code: country_code,
            terminal_currency_code: currency_code,
        }
    }

    /// SELECT PPSE: class 0x00, instruction 0xA4, parameters 0x04/0x00,
    /// data "2PAY.SYS.DDF01", expected length 0x00.
    pub fn select_ppse(&self) -> (r: ApduCommand)
        ensures
            r.cla == 0x00,
            r.ins == 0xA4,
            r.p1 == 0x04,
            r.p2 == 0x00,
            r.data matches Some(d) && d@ == ppse_name(),
            r.le == Some(0x00u8),
    {
        let name: Vec<u8> = vec![
            0x32, 0x50, 0x41, 0x59, 0x2E, 0x53, 0x59, 0x53, 0x2E, 0x44, 0x44, 0x46, 0x30, 0x31,
        ];
        proof {
            assert(name@ =~= ppse_name());
        }
        ApduCommand::new(0x00, 0xA4, 0x04, 0x00).with_data(name).with_le(0x00)
    }

    /// SELECT application: class 0x00, instruction 0xA4, parameters
    /// 0x04/0x00, the AID as data, expected length 0x00.
    pub fn select_application(&self, aid: &[u8]) -> (r: ApduCommand)
        requires
            aid@.len() <= 255,
        ensures
            r.cla == 0x00,
            r.ins == 0xA4,
            r.p1 == 0x04,
            r.p2 == 0x00,
            r.data matches Some(d) && d@ == aid@,
            r.le == Some(0x00u8),
    {
        let data = vstd::slice::slice_to_vec(aid);
        ApduCommand::new(0x00, 0xA4, 0x04, 0x00).with_data(data).with_le(0x00)
    }

    /// READ RECORD: class 0x00, instruction 0xB2, the record number as P1,
    /// `(sfi << 3) | 0x04` as P2, no data, expected length 0x00.
    pub fn read_record(&self, sfi: u8, record: u8) -> (r: ApduCommand)
        ensures
            r.cla == 0x00,
            r.ins == 0xB2,
            r.p1 == record,
            r.p2 == (sfi << 3) | 0x04,
            r.data is None,
            r.le == Some(0x00u8),
    {
        let p2 = (sfi << 3) | 0x04;
        ApduCommand::new(0x00, 0xB2, record, p2).with_le(0x00)
    }

    /// GET PROCESSING OPTIONS: class 0x80, instruction 0xA8, parameters
    /// 0x00/0x00, data tag 0x83 followed by the PDOL length byte and the
    /// PDOL bytes, expected length 0x00.
    pub fn get_processing_options(&self, pdol_data: &[u8]) -> (r: ApduCommand)
        requires
            pdol_data@.len() <= 253,
        ensures
            r.cla == 0x80,
            r.ins == 0xA8,
            r.p1 == 0x00,
            r.p2 == 0x00,
            r.data matches Some(d) && d@ == seq![0x83u8, pdol_data@.len() as u8] + pdol_data@,
            r.le == Some(0x00u8),
    {
        let mut data: Vec<u8> = Vec::new();
        data.push(0x83);
        data.push(pdol_data.len() as u8);
        let ghost header = seq![0x83u8, pdol_data@.len() as u8];
        proof {
            assert(data@ =~= header);
        }
        let mut i: usize = 0;
        while i < pdol_data.len()
            invariant
                i <= pdol_data@.len(),
                header == seq![0x83u8, pdol_data@.len() as u8],
                data@ == header + pdol_data@.take(i as int),
            decreases pdol_data@.len() - i,
        {
            data.push(pdol_data[i]);
            proof {
                assert(header + pdol_data@.take(i + 1) =~= (header + pdol_data@.take(
                    i as int,
                )).push(pdol_data@[i as int]));
            }
            i += 1;
        }
        proof {
            assert(pdol_data@.take(pdol_data@.len() as int) =~= pdol_data@);
        }
        ApduCommand::new(0x80, 0xA8, 0x00, 0x00).with_data(data).with_le(0x00)
    }

    /// GENERATE AC: class 0x80, instruction 0xAE, the cryptogram type as
    /// P1, 0x00 as P2, the CDOL bytes as data, expected length 0x00.
    pub fn generate_ac(&self, ac_type: u8, cdol_data: &[u8]) -> (r: ApduCommand)
        requires
            cdol_data@.len() <= 255,
        ensures
            r.cla == 0x80,
            r.ins == 0xAE,
            r.p1 == ac_type,
            r.p2 == 0x00,
            r.data matches Some(d) && d@ == cdol_data@,
            r.le == Some(0x00u8),
    {
        let data = vstd::slice::slice_to_vec(cdol_data);
        ApduCommand::new(0x80, 0xAE, ac_type, 0x00).with_data(data).with_le(0x00)
    }

    /// The PAN text of a raw value: lower-case hex with trailing `'f'`/`'F'`
    /// padding digits stripped from the right end only.
    fn format_pan(&self, bcd_data: &[u8]) -> (r: String)
        ensures
            r@ == pan_text(bcd_data@),
    {
        let mut nb = bcd_data.len();
        proof {
            assert(bcd_data@.take(nb as int) =~= bcd_data@);
        }
        while nb > 0 && bcd_data[nb - 1] == 0xFF
            invariant
                nb <= bcd_data@.len(),
                pan_text(bcd_data@) == strip_trailing_f(hex_lower_of(bcd_data@.take(nb as int))),
            decreases nb,
        {
            proof {
                assert(bcd_data@.take(nb as int).last() == bcd_data@[nb - 1]);
                lemma_strip_ff_byte(bcd_data@.take(nb as int));
                assert(bcd_data@.take(nb - 1) =~= bcd_data@.take(nb as int).drop_last());
            }
            nb -= 1;
        }
        if nb > 0 && bcd_data[nb - 1] % 16 == 15 {
            let ghost kept = bcd_data@.take(nb as int);
            proof {
                assert(kept.last() == bcd_data@[nb - 1]);
                assert(kept.last() / 16 != 15);
                lemma_strip_half_byte(kept);
                assert(kept.drop_last() =~= bcd_data@.take(nb - 1));
            }
            let mut s = hex_encode(slice_subrange(bcd_data, 0, nb - 1));
            s.push(hex_digit_lower_char(bcd_data[nb - 1] / 16));
            proof {
                assert(s@ =~= pan_text(bcd_data@));
            }
            s
        } else {
            proof {
                if nb > 0 {
                    assert(bcd_data@.take(nb as int).last() == bcd_data@[nb - 1]);
                }
                lemma_strip_full(bcd_data@.take(nb as int));
            }
            let s = hex_encode(slice_subrange(bcd_data, 0, nb));
            s
        }
    }

    /// The expiry text of a raw value: the four lower-case hex digits of
    /// its first two bytes, or nothing when fewer than two are present.
    fn format_expiry(&self, bcd_data: &[u8]) -> (r: String)
        ensures
            r@ == expiry_text(bcd_data@),
    {
        if bcd_data.len() >= 2 {
            hex_encode(slice_subrange(bcd_data, 0, 2))
        } else {
            String::new()
        }
    }

    /// Parses a TLV payload and extracts the card attributes: PAN (tag
    /// 0x5A) and expiry (tag 0x5F24) are mandatory, cardholder name (tag
    /// 0x5F20), track 2 (tag 0x57) and application label (tag 0x50) are
    /// optional.  The AID is supplied by the caller, not read from the
    /// payload.  Known asymmetry, kept deliberately: the expiry tag must be
    /// present, yet an expiry value shorter than two bytes renders as an
    /// empty string rather than an error.
    pub fn parse_card_data(&self, tlv_data: &[u8], aid: String) -> (r: Result<CardData, String>)
        ensures
            ({
                let parsed = parse_tlvs(tlv_data@);
                match r {
                    Ok(card) => {
                        &&& parsed matches Ok(records)
                        &&& find_tag(records, seq![0x5Au8]) matches Some(pan_rec)
                            && card.pan@ == pan_text(pan_rec.value)
                        &&& find_tag(records, seq![0x5Fu8, 0x24u8]) matches Some(exp_rec)
                            && card.expiry@ == expiry_text(exp_rec.value)
                        &&& (match find_tag(records, seq![0x5Fu8, 0x20u8]) {
                            Some(rec) => card.cardholder_name matches Some(n) && n@
                                == utf8_lossy_of(rec.value),
                            None => card.cardholder_name is None,
                        })
                        &&& (match find_tag(records, seq![0x57u8]) {
                            Some(rec) => card.track2 matches Some(t) && t@ == hex_lower_of(
                                rec.value,
                            ),
                            None => card.track2 is None,
                        })
                        &&& card.aid@ == aid@
                        &&& (match find_tag(records, seq![0x50u8]) {
                            Some(rec) => card.app_label matches Some(l) && l@ == utf8_lossy_of(
                                rec.value,
                            ),
                            None => card.app_label is None,
                        })
                    },
                    Err(m) => {
                        ||| (parsed matches Err(e) && m@ == tlv_error_message(e))
                        ||| (parsed matches Ok(records) && find_tag(records, seq![0x5Au8])
                            is None && m@ == "PAN not found"@)
                        ||| (parsed matches Ok(records) && find_tag(records, seq![0x5Au8])
                            is Some && find_tag(records, seq![0x5Fu8, 0x24u8]) is None && m@
                            == "Expiry date not found"@)
                    },
                }
            }),
    {
        let tlvs = match Tlv::parse(tlv_data) {
            Ok(t) => t,
            Err(e) => {
                return Err(e);
            },
        };
        let tag_pan: Vec<u8> = vec![0x5A];
        proof {
            assert(tag_pan@ =~= seq![0x5Au8]);
        }
        let pan_rec = match Tlv::find_by_tag(tlvs.as_slice(), tag_pan.as_slice()) {
            Some(t) => t,
            None => {
                return Err(String::from_str("PAN not found"));
            },
        };
        let pan = self.format_pan(pan_rec.value.as_slice());
        let tag_expiry: Vec<u8> = vec![0x5F, 0x24];
        proof {
            assert(tag_expiry@ =~= seq![0x5Fu8, 0x24u8]);
        }
        let expiry_rec = match Tlv::find_by_tag(tlvs.as_slice(), tag_expiry.as_slice()) {
            Some(t) => t,
            None => {
                return Err(String::from_str("Expiry date not found"));
            },
        };
        let expiry = self.format_expiry(expiry_rec.value.as_slice());
        let tag_name: Vec<u8> = vec![0x5F, 0x20];
        proof {
            assert(tag_name@ =~= seq![0x5Fu8, 0x20u8]);
        }
        let cardholder_name = match Tlv::find_by_tag(tlvs.as_slice(), tag_name.as_slice()) {
            Some(t) => Some(utf8_lossy(t.value.as_slice())),
            None => None,
        };
        let tag_track2: Vec<u8> = vec![0x57];
        proof {
            assert(tag_track2@ =~= seq![0x57u8]);
        }
        let track2 = match Tlv::find_by_tag(tlvs.as_slice(), tag_track2.as_slice()) {
            Some(t) => Some(hex_encode(t.value.as_slice())),
            None => None,
        };
        let tag_label: Vec<u8> = vec![0x50];
        proof {
            assert(tag_label@ =~= seq![0x50u8]);
        }
        let app_label = match Tlv::find_by_tag(tlvs.as_slice(), tag_label.as_slice()) {
            Some(t) => Some(utf8_lossy(t.value.as_slice())),
            None => None,
        };
        Ok(CardData { pan, expiry, cardholder_name, track2, aid, app_label })
    }

    /// Accepts exactly the responses whose status word is 0x9000; any other
    /// status word is returned as an error naming it in four upper-case hex
    /// digits.
    pub fn validate_response(&self, response: &ApduResponse) -> (r: Result<(), String>)
        ensures
            (match r {
                Ok(_) => response.spec_status_word() == 0x9000,
                Err(m) => response.spec_status_word() != 0x9000 && m@ == apdu_error_message(
                    response.spec_status_word(),
                ),
            }),
    {
        if !response.is_success() {
            return Err(apdu_error_string(response.status_word()));
        }
        Ok(())
    }
}

} // verus!
