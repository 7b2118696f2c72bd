//! Decoding of an initial ledger snapshot: the protocol parameters needed to
//! build transactions, followed by the initial fund records.
//!
//! The layout is a fixed header — discrimination tag (one byte, 0 or 1),
//! fee constant, fee coefficient and fee certificate (u64, little-endian),
//! slot duration (one byte), slots per epoch (u32, little-endian), and the
//! fund-record count (u32, little-endian) — followed by exactly that many
//! records. A record is a kind byte: kind 0 is a single-address fund
//! (33-byte address, u64 value), kind 1 an account fund (32-byte account
//! identifier, u64 value). Nothing may follow the last record.

use vstd::prelude::*;

use crate::bytes::le32_of;
use crate::bytes::le64_of;
use crate::bytes::lemma_le32_of_range;
use crate::bytes::lemma_le64_of_range;
use crate::bytes::copy_range;
use crate::bytes::read_u32_le;
use crate::bytes::read_u64_le;
use crate::errors::Error;
use crate::errors::ErrorKind;

verus! {

/// Immutable protocol parameters extracted from a snapshot.
#[derive(Clone, Copy, Debug, PartialEq, Eq, Structural)]
pub struct Settings {
    /// Network discrimination tag, the first byte of every address.
    pub discrimination: u8,
    /// Constant part of the linear fee formula.
    pub fee_constant: u64,
    /// Per-piece part of the linear fee formula (inputs plus outputs).
    pub fee_coefficient: u64,
    /// Certificate part of the linear fee formula.
    pub fee_certificate: u64,
    /// Era parameter: seconds per slot.
    pub slot_duration: u8,
    /// Era parameter: slots per epoch.
    pub slots_per_epoch: u32,
}

/// An initial fund record as carried by the snapshot.
pub struct RawFund {
    /// True for an account fund, false for a single-address fund.
    pub account: bool,
    /// The owning address (33 bytes) or account identifier (32 bytes).
    pub owner: Vec<u8>,
    /// The value in atomic units.
    pub value: u64,
}

/// Mathematical image of a raw fund record.
pub struct RawFundV {
    pub account: bool,
    pub owner: Seq<u8>,
    pub value: u64,
}

impl View for RawFund {
    type V = RawFundV;

    open spec fn view(&self) -> RawFundV {
        RawFundV { account: self.account, owner: self.owner@, value: self.value }
    }
}

/// The images of a sequence of raw fund records.
pub open spec fn views_of(s: Seq<RawFund>) -> Seq<RawFundV>
    decreases s.len(),
{
    if s.len() == 0 {
        Seq::empty()
    } else {
        views_of(s.drop_last()).push(s.last()@)
    }
}

pub proof fn lemma_views_push(s: Seq<RawFund>, f: RawFund)
    ensures
        views_of(s.push(f)) == views_of(s).push(f@),
{
    assert(s.push(f).drop_last() =~= s);
    assert(s.push(f).last() == f);
}

/// Number of bytes in the snapshot header.
pub const HEADER_LEN: usize = 34;

/// The record starting at offset `i`, with the offset just after it, or
/// nothing if no record can be read there.
pub open spec fn parse_fund(s: Seq<u8>, i: int) -> Option<(RawFundV, int)> {
    if 0 <= i < s.len() {
        if s[i] == 0 && i + 42 <= s.len() {
            Some(
                (
                    RawFundV {
                        account: false,
                        owner: s.subrange(i + 1, i + 34),
                        value: le64_of(s.subrange(i + 34, i + 42)) as u64,
                    },
                    i + 42,
                ),
            )
        } else if s[i] == 1 && i + 41 <= s.len() {
            Some(
                (
                    RawFundV {
                        account: true,
                        owner: s.subrange(i + 1, i + 33),
                        value: le64_of(s.subrange(i + 33, i + 41)) as u64,
                    },
                    i + 41,
                ),
            )
        } else {
            None
        }
    } else {
        None
    }
}

/// The `n` records starting at offset `i`, which must end exactly at the end
/// of the snapshot, or nothing if they cannot be read so.
pub open spec fn parse_funds(s: Seq<u8>, i: int, n: int) -> Option<Seq<RawFundV>>
    decreases n,
{
    if n <= 0 {
        if i == s.len() {
            Some(Seq::empty())
        } else {
            None
        }
    } else {
        match parse_fund(s, i) {
            Some((f, j)) => match parse_funds(s, j, n - 1) {
                Some(rest) => Some(seq![f] + rest),
                None => None,
            },
            None => None,
        }
    }
}

/// The protocol parameters held by the snapshot header.
pub open spec fn parse_settings(s: Seq<u8>) -> Settings
    recommends
        s.len() >= HEADER_LEN,
{
    Settings {
        discrimination: s[0],
        fee_constant: le64_of(s.subrange(1, 9)) as u64,
        fee_coefficient: le64_of(s.subrange(9, 17)) as u64,
        fee_certificate: le64_of(s.subrange(17, 25)) as u64,
        slot_duration: s[25],
        slots_per_epoch: le32_of(s.subrange(26, 30)) as u32,
    }
}

/// What a snapshot decodes to, or nothing when it is malformed.
pub open spec fn parse_snapshot(s: Seq<u8>) -> Option<(Settings, Seq<RawFundV>)> {
    if s.len() >= HEADER_LEN && (s[0] == 0 || s[0] == 1) {
        match parse_funds(s, HEADER_LEN as int, le32_of(s.subrange(30, 34))) {
            Some(fs) => Some((parse_settings(s), fs)),
            None => None,
        }
    } else {
        None
    }
}

/// Decode a snapshot into its protocol parameters and initial fund records.
/// Fails exactly on the byte sequences that do not follow the layout above.
pub fn decode_snapshot(s: &Vec<u8>) -> (r: Result<(Settings, Vec<RawFund>), Error>)
    ensures
        r is Ok <==> parse_snapshot(s@) is Some,
        r matches Ok(p) ==> parse_snapshot(s@) == Some((p.0, views_of(p.1@))),
        r matches Err(e) ==> e.kind == ErrorKind::MalformedSnapshot,
{
    let n: usize = s.len();
    if n < HEADER_LEN {
        return Err(Error::malformed_snapshot());
    }
    let discrimination = s[0];
    if !(discrimination == 0 || discrimination == 1) {
        return Err(Error::malformed_snapshot());
    }
    let fee_constant = read_u64_le(s, 1);
    let fee_coefficient = read_u64_le(s, 9);
    let fee_certificate = read_u64_le(s, 17);
    let slot_duration = s[25];
    let slots_per_epoch = read_u32_le(s, 26);
    let count = read_u32_le(s, 30);
    proof {
        lemma_le64_of_range(s@.subrange(1, 9));
        lemma_le64_of_range(s@.subrange(9, 17));
        lemma_le64_of_range(s@.subrange(17, 25));
        lemma_le32_of_range(s@.subrange(26, 30));
        lemma_le32_of_range(s@.subrange(30, 34));
    }
    let settings = Settings {
        discrimination,
        fee_constant,
        fee_coefficient,
        fee_certificate,
        slot_duration,
        slots_per_epoch,
    };
    assert(settings == parse_settings(s@));
    let ghost total: int = count as int;
    let mut funds: Vec<RawFund> = Vec::new();
    let mut i: usize = HEADER_LEN;
    let mut rem: u32 = count;
    while rem > 0
        invariant
            HEADER_LEN <= i <= n,
            n == s@.len(),
            total == count as int,
            total == le32_of(s@.subrange(30, 34)),
            s@[0] == 0 || s@[0] == 1,
            parse_funds(s@, HEADER_LEN as int, total) == (match parse_funds(
                s@,
                i as int,
                rem as int,
            ) {
                Some(rest) => Some(views_of(funds@) + rest),
                None => None::<Seq<RawFundV>>,
            }),
        decreases rem,
    {
        if i >= n {
            proof {
                assert(parse_funds(s@, i as int, rem as int) is None);
            }
            return Err(Error::malformed_snapshot());
        }
        let kind = s[i];
        let f: RawFund;
        let next: usize;
        if kind == 0 {
            if n - i < 42 {
                proof {
                    assert(parse_fund(s@, i as int) is None);
                    assert(parse_funds(s@, i as int, rem as int) is None);
                }
                return Err(Error::malformed_snapshot());
            }
            let owner = copy_range(s, i + 1, i + 34);
            let value = read_u64_le(s, i + 34);
            proof {
                lemma_le64_of_range(s@.subrange(i + 34, i + 42));
            }
            f = RawFund { account: false, owner, value };
            next = i + 42;
        } else if kind == 1 {
            if n - i < 41 {
                proof {
                    assert(parse_fund(s@, i as int) is None);
                    assert(parse_funds(s@, i as int, rem as int) is None);
                }
                return Err(Error::malformed_snapshot());
            }
            let owner = copy_range(s, i + 1, i + 33);
            let value = read_u64_le(s, i + 33);
            proof {
                lemma_le64_of_range(s@.subrange(i + 33, i + 41));
            }
            f = RawFund { account: true, owner, value };
            next = i + 41;
        } else {
            proof {
                assert(parse_fund(s@, i as int) is None);
                assert(parse_funds(s@, i as int, rem as int) is None);
            }
            return Err(Error::malformed_snapshot());
        }
        proof {
            let step = parse_fund(s@, i as int);
            assert(step == Some((f@, next as int)));
            lemma_views_push(funds@, f);
            match parse_funds(s@, next as int, rem - 1) {
                Some(rest) => {
                    assert(views_of(funds@) + (seq![f@] + rest) =~= views_of(funds@.push(f))
                        + rest);
                },
                None => {},
            }
        }
        funds.push(f);
        i = next;
        rem = rem - 1;
    }
    if i != n {
        proof {
            assert(parse_funds(s@, i as int, 0) is None);
        }
        return Err(Error::malformed_snapshot());
    }
    proof {
        assert(parse_funds(s@, i as int, 0) == Some(Seq::<RawFundV>::empty()));
        assert(views_of(funds@) + Seq::<RawFundV>::empty() =~= views_of(funds@));
    }
    Ok((settings, funds))
}

} // verus!
