//! The H.265 parser: the inverse of the synthesizer.

use crate::bits::{bits_of, lemma_pow2_values};
use crate::codec::bit_reader::BitReader;
use crate::codec::h265::nalu::Nalu;
use crate::codec::h265::parser::pps::{parse_pps, pps_same, pps_settled};
use crate::codec::h265::parser::slice::{parse_slice, slice_same, slice_settled};
use crate::codec::h265::parser::sps::{parse_sps, sps_same, sps_settled};
use crate::codec::h265::parser::vps::{parse_vps, vps_same, vps_settled};
use crate::codec::h265::tables::{
    pps_head_syntax, pps_syntax, slice_syntax, sps_head_syntax, sps_syntax, vps_syntax,
};
use crate::codec::h265::types::{NaluType, Pps, SliceHeader, Sps, Vps};
use crate::shared::share;
use crate::syntax::{group_onto, group_read, lemma_read_u, read_flag, read_u, read_ue};
use std::rc::Rc;
use vstd::prelude::*;

pub mod common;
pub mod hrd;
pub mod pps;
pub mod ptl;
pub mod rps;
pub mod scaling;
pub mod slice;
pub mod sps;
pub mod vps;
pub mod vui;
pub mod weights;

verus! {

/// Why a NAL unit could not be parsed.
#[derive(Clone, Copy, Debug, PartialEq, Eq, Structural)]
pub enum ParseError {
    /// The NAL unit is of another type.
    WrongNaluType,
    /// The RBSP is not that of a structure that the parser reads.
    Invalid,
    /// The parameter set that the structure refers to was not parsed before.
    MissingParameterSet,
    /// The RBSP has more bits than can be counted.
    TooLong,
}

/// Whether `r` is what the bits of `rbsp` parse as: a video parameter set whose table
/// the bits start with, and of which what is not coded has its inferred or initial value.
/// Where they start with the table of a set that can be written in full and is consistent,
/// that set is recovered, field for field as far as it is coded.
pub open spec fn vps_parsed(rbsp: Seq<u8>, r: Option<Vps>) -> bool {
    &&& r matches Some(p) ==> {
        &&& p.inferred()
        &&& vps_settled(p)
        &&& vps_syntax(p).fits()
        &&& exists|rest: Seq<bool>| bits_of(rbsp) == #[trigger] vps_syntax(p).onto(rest)
    }
    &&& forall|v: Vps, rest: Seq<bool>|
        bits_of(rbsp) == #[trigger] vps_syntax(v).onto(rest) && vps_syntax(v).fits() && v.inferred()
            ==> {
            &&& r is Some
            &&& vps_same(r->0, v)
            &&& bits_of(rbsp) == vps_syntax(r->0).onto(rest)
        }
}

/// As [`vps_parsed`], of a sequence parameter set, the variables of which are derived.
pub open spec fn sps_parsed(rbsp: Seq<u8>, r: Option<Sps>) -> bool {
    &&& r matches Some(p) ==> {
        &&& p.inferred()
        &&& p.derived()
        &&& p.usable()
        &&& p.ctb_log2() <= 31
        &&& sps_settled(p)
        &&& sps_syntax(p).fits()
        &&& exists|rest: Seq<bool>| bits_of(rbsp) == #[trigger] sps_syntax(p).onto(rest)
    }
    &&& forall|v: Sps, rest: Seq<bool>|
        bits_of(rbsp) == #[trigger] sps_syntax(v).onto(rest) && sps_syntax(v).fits() && v.inferred()
            && v.ctb_log2() <= 31 ==> {
            &&& r is Some
            &&& sps_same(r->0, v)
            &&& bits_of(rbsp) == sps_syntax(r->0).onto(rest)
        }
}

/// As [`vps_parsed`], of a picture parameter set.
pub open spec fn pps_parsed(rbsp: Seq<u8>, r: Option<Pps>) -> bool {
    &&& r matches Some(p) ==> {
        &&& pps_settled(p)
        &&& pps_syntax(p).fits()
        &&& p.qp_bd_offset_y == 6 * p.sps.bit_depth_luma_minus8
        &&& exists|rest: Seq<bool>| bits_of(rbsp) == #[trigger] pps_syntax(p).onto(rest)
    }
    &&& forall|v: Pps, rest: Seq<bool>|
        bits_of(rbsp) == #[trigger] pps_syntax(v).onto(rest) && pps_syntax(v).fits()
            ==> {
            &&& r is Some
            &&& pps_same(r->0, v)
            &&& bits_of(rbsp) == pps_syntax(r->0).onto(rest)
        }
}

/// As [`vps_parsed`], of a slice segment header under the active parameter sets.
pub open spec fn slice_parsed(
    rbsp: Seq<u8>,
    nalu_type: NaluType,
    sps: Sps,
    pps: Pps,
    r: Option<SliceHeader>,
) -> bool {
    &&& r matches Some(p) ==> {
        &&& p.inferred(nalu_type, sps, pps)
        &&& slice_settled(p, nalu_type, sps, pps)
        &&& p.dependent_slice_segment_flag || p.num_pic_total_curr == p.pic_total_curr(sps, pps)
        &&& slice_syntax(p, nalu_type, sps, pps).fits()
        &&& exists|rest: Seq<bool>| bits_of(rbsp) == #[trigger] slice_syntax(p, nalu_type, sps, pps).onto(rest)
    }
    &&& forall|v: SliceHeader, rest: Seq<bool>|
        bits_of(rbsp) == #[trigger] slice_syntax(v, nalu_type, sps, pps).onto(rest) && slice_syntax(
            v,
            nalu_type,
            sps,
            pps,
        ).fits() && v.inferred(nalu_type, sps, pps) ==> {
            &&& r is Some
            &&& slice_same(r->0, v, nalu_type, sps, pps)
            &&& bits_of(rbsp) == slice_syntax(r->0, nalu_type, sps, pps).onto(rest)
        }
}

/// A reader over the bits of `rbsp`.
fn reader_over(rbsp: &Vec<u8>) -> (r: BitReader)
    requires
        8 * rbsp@.len() <= usize::MAX,
    ensures
        r.inv(),
        r@ == Some(bits_of(rbsp@)),
{
    let mut data: Vec<u8> = Vec::new();
    let mut i: usize = 0;
    while i < rbsp.len()
        invariant
            i <= rbsp@.len(),
            data@ =~= rbsp@.take(i as int),
        decreases rbsp@.len() - i,
    {
        data.push(rbsp[i]);
        i = i + 1;
    }
    assert(data@ =~= rbsp@);
    BitReader::new(data)
}

/// A video parameter set from an RBSP.
pub fn read_vps(rbsp: &Vec<u8>) -> (p: Option<Vps>)
    requires
        8 * rbsp@.len() <= usize::MAX,
    ensures
        vps_parsed(rbsp@, p),
{
    let mut r = reader_over(rbsp);
    let p = parse_vps(&mut r);
    if r.failed() {
        None
    } else {
        Some(p)
    }
}

/// A sequence parameter set from an RBSP.
pub fn read_sps(rbsp: &Vec<u8>, vps: Option<Rc<Vps>>) -> (p: Option<Sps>)
    requires
        8 * rbsp@.len() <= usize::MAX,
    ensures
        sps_parsed(rbsp@, p),
        p matches Some(p) ==> p.vps == vps,
{
    let mut r = reader_over(rbsp);
    let p = parse_sps(&mut r, vps);
    if r.failed() {
        None
    } else {
        Some(p)
    }
}

/// A picture parameter set from an RBSP.
pub fn read_pps(rbsp: &Vec<u8>, sps: Rc<Sps>) -> (p: Option<Pps>)
    requires
        8 * rbsp@.len() <= usize::MAX,
    ensures
        pps_parsed(rbsp@, p),
        p matches Some(p) ==> p.sps == sps,
{
    let mut r = reader_over(rbsp);
    let p = parse_pps(&mut r, sps);
    if r.failed() {
        None
    } else {
        Some(p)
    }
}

/// A slice segment header from an RBSP, under the active parameter sets.
pub fn read_slice_header(
    rbsp: &Vec<u8>,
    nalu_type: NaluType,
    sps: &Sps,
    pps: &Pps,
) -> (p: Option<SliceHeader>)
    requires
        8 * rbsp@.len() <= usize::MAX,
        sps.usable(),
    ensures
        slice_parsed(rbsp@, nalu_type, *sps, *pps, p),
{
    let mut r = reader_over(rbsp);
    let p = parse_slice(&mut r, nalu_type, sps, pps);
    if r.failed() {
        None
    } else {
        Some(p)
    }
}

/// The identifier of the video parameter set that a sequence parameter set refers to.
pub open spec fn sps_vps_id(rbsp: Seq<u8>) -> int {
    read_u(Some(bits_of(rbsp)), 4).0
}

/// The identifier of the sequence parameter set that a picture parameter set refers to.
pub open spec fn pps_sps_id(rbsp: Seq<u8>) -> Option<int> {
    let (id, rest) = read_ue(read_ue(Some(bits_of(rbsp)), 0xff).1, 0xff);
    if rest is Some {
        Some(id)
    } else {
        None
    }
}

/// The identifier of the picture parameter set that a slice segment refers to.
pub open spec fn slice_pps_id(rbsp: Seq<u8>, nalu_type: NaluType) -> Option<int> {
    let first = read_flag(Some(bits_of(rbsp))).1;
    let (id, rest) = read_ue(if nalu_type.irap() { read_flag(first).1 } else { first }, 0xff);
    if rest is Some {
        Some(id)
    } else {
        None
    }
}

/// A slice segment: its NAL unit and the header in it.
#[derive(Clone, Debug, PartialEq, Eq)]
pub struct Slice {
    pub header: SliceHeader,
    pub nalu: Nalu,
}

/// The parameter sets parsed so far, by their identifiers.
pub struct Parser {
    vpses: Vec<Option<Rc<Vps>>>,
    spses: Vec<Option<Rc<Sps>>>,
    ppses: Vec<Option<Rc<Pps>>>,
}

/// A vector of `n` times nothing.
fn nothing<T>(n: usize) -> (v: Vec<Option<Rc<T>>>)
    ensures
        v@.len() == n,
        forall|i: int| 0 <= i < n ==> #[trigger] v@[i] is None,
{
    let mut v: Vec<Option<Rc<T>>> = Vec::new();
    while v.len() < n
        invariant
            v@.len() <= n,
            forall|i: int| 0 <= i < v@.len() ==> #[trigger] v@[i] is None,
        decreases n - v@.len(),
    {
        v.push(None);
    }
    v
}

/// The pointer at position `i`, shared.
fn share_at<T>(v: &Vec<Option<Rc<T>>>, i: u8) -> (r: Option<Rc<T>>)
    requires
        i < v@.len(),
    ensures
        r == v@[i as int],
{
    match &v[i as usize] {
        Some(rc) => Some(share(rc)),
        None => None,
    }
}

impl Default for Parser {
    fn default() -> (p: Self)
        ensures
            p.inv(),
            forall|id: u8| #[trigger] p.vps_at(id) is None,
            forall|id: u8| #[trigger] p.sps_at(id) is None,
            forall|id: u8| #[trigger] p.pps_at(id) is None,
    {
        Parser { vpses: nothing(256), spses: nothing(256), ppses: nothing(256) }
    }
}

impl Parser {
    /// The video parameter set with identifier `id`.
    pub closed spec fn vps_at(&self, id: u8) -> Option<Rc<Vps>> {
        self.vpses@[id as int]
    }

    /// The sequence parameter set with identifier `id`.
    pub closed spec fn sps_at(&self, id: u8) -> Option<Rc<Sps>> {
        self.spses@[id as int]
    }

    /// The picture parameter set with identifier `id`.
    pub closed spec fn pps_at(&self, id: u8) -> Option<Rc<Pps>> {
        self.ppses@[id as int]
    }

    /// Slice headers can refer to every parameter set.
    pub closed spec fn inv(&self) -> bool {
        &&& self.vpses@.len() == 256
        &&& self.spses@.len() == 256
        &&& self.ppses@.len() == 256
        &&& forall|i: int| 0 <= i < 256 && (#[trigger] self.spses@[i]) is Some
            ==> self.spses@[i]->0.usable()
        &&& forall|i: int| 0 <= i < 256 && (#[trigger] self.ppses@[i]) is Some
            ==> self.ppses@[i]->0.sps.usable()
    }

    /// Whether the video parameter sets are those of `before`, but for `id`.
    pub open spec fn vpses_but(&self, before: &Self, id: u8) -> bool {
        forall|k: u8| k != id ==> #[trigger] self.vps_at(k) == before.vps_at(k)
    }

    /// Whether the sequence parameter sets are those of `before`, but for `id`.
    pub open spec fn spses_but(&self, before: &Self, id: u8) -> bool {
        forall|k: u8| k != id ==> #[trigger] self.sps_at(k) == before.sps_at(k)
    }

    /// Whether the picture parameter sets are those of `before`, but for `id`.
    pub open spec fn ppses_but(&self, before: &Self, id: u8) -> bool {
        forall|k: u8| k != id ==> #[trigger] self.pps_at(k) == before.pps_at(k)
    }

    /// Whether the parameter sets are those of `before`.
    pub open spec fn unchanged(&self, before: &Self) -> bool {
        &&& forall|k: u8| #[trigger] self.vps_at(k) == before.vps_at(k)
        &&& forall|k: u8| #[trigger] self.sps_at(k) == before.sps_at(k)
        &&& forall|k: u8| #[trigger] self.pps_at(k) == before.pps_at(k)
    }

    /// The sequence parameter set with identifier `id`.
    pub fn get_sps(&self, id: u8) -> (r: Option<&Rc<Sps>>)
        requires
            self.inv(),
        ensures
            match r {
                Some(s) => self.sps_at(id) == Some(*s),
                None => self.sps_at(id) is None,
            },
    {
        self.spses[id as usize].as_ref()
    }

    /// The picture parameter set with identifier `id`.
    pub fn get_pps(&self, id: u8) -> (r: Option<&Rc<Pps>>)
        requires
            self.inv(),
        ensures
            match r {
                Some(p) => self.pps_at(id) == Some(*p),
                None => self.pps_at(id) is None,
            },
    {
        self.ppses[id as usize].as_ref()
    }

    /// Parses a video parameter set and keeps it under its identifier.
    pub fn parse_vps(&mut self, nalu: &Nalu) -> (r: Result<Rc<Vps>, ParseError>)
        requires
            old(self).inv(),
        ensures
            final(self).inv(),
            r == Err::<Rc<Vps>, ParseError>(ParseError::WrongNaluType)
                <==> nalu.header.type_ != NaluType::VpsNut,
            r == Err::<Rc<Vps>, ParseError>(ParseError::TooLong)
                <==> nalu.header.type_ == NaluType::VpsNut
                && 8 * nalu.rbsp@.len() > usize::MAX,
            match r {
                Ok(p) => {
                    &&& vps_parsed(nalu.rbsp@, Some(*p))
                    &&& final(self).vps_at(p.video_parameter_set_id) == Some(p)
                    &&& final(self).vpses_but(old(self), p.video_parameter_set_id)
                    &&& forall|k: u8| #[trigger] final(self).sps_at(k) == old(self).sps_at(k)
                    &&& forall|k: u8| #[trigger] final(self).pps_at(k) == old(self).pps_at(k)
                },
                Err(e) => {
                    &&& e == ParseError::Invalid ==> vps_parsed(nalu.rbsp@, None)
                    &&& e != ParseError::MissingParameterSet
                    &&& final(self).unchanged(old(self))
                },
            },
    {
        if nalu.header.type_ != NaluType::VpsNut {
            return Err(ParseError::WrongNaluType);
        }
        if nalu.rbsp.len() > usize::MAX / 8 {
            return Err(ParseError::TooLong);
        }
        match read_vps(&nalu.rbsp) {
            Some(p) => {
                let id: u8 = p.video_parameter_set_id;
                let rc = Rc::new(p);
                self.vpses.set(id as usize, Some(share(&rc)));
                Ok(rc)
            },
            None => Err(ParseError::Invalid),
        }
    }

    /// Parses a sequence parameter set and keeps it under its identifier.
    pub fn parse_sps(&mut self, nalu: &Nalu) -> (r: Result<Rc<Sps>, ParseError>)
        requires
            old(self).inv(),
        ensures
            final(self).inv(),
            r == Err::<Rc<Sps>, ParseError>(ParseError::WrongNaluType)
                <==> nalu.header.type_ != NaluType::SpsNut,
            r == Err::<Rc<Sps>, ParseError>(ParseError::TooLong)
                <==> nalu.header.type_ == NaluType::SpsNut
                && 8 * nalu.rbsp@.len() > usize::MAX,
            match r {
                Ok(p) => {
                    &&& sps_parsed(nalu.rbsp@, Some(*p))
                    &&& p.vps == old(self).vps_at(p.video_parameter_set_id)
                    &&& final(self).sps_at(p.seq_parameter_set_id) == Some(p)
                    &&& final(self).spses_but(old(self), p.seq_parameter_set_id)
                    &&& forall|k: u8| #[trigger] final(self).vps_at(k) == old(self).vps_at(k)
                    &&& forall|k: u8| #[trigger] final(self).pps_at(k) == old(self).pps_at(k)
                },
                Err(e) => {
                    &&& e == ParseError::Invalid ==> sps_parsed(nalu.rbsp@, None)
                    &&& e != ParseError::MissingParameterSet
                    &&& final(self).unchanged(old(self))
                },
            },
    {
        if nalu.header.type_ != NaluType::SpsNut {
            return Err(ParseError::WrongNaluType);
        }
        if nalu.rbsp.len() > usize::MAX / 8 {
            return Err(ParseError::TooLong);
        }
        proof {
            lemma_pow2_values();
            lemma_read_u(Some(bits_of(nalu.rbsp@)), 4);
        }
        let mut peek = reader_over(&nalu.rbsp);
        let vps_id: u8 = peek.u(4) as u8;
        let vps = share_at(&self.vpses, vps_id);
        match read_sps(&nalu.rbsp, vps) {
            Some(p) => {
                proof {
                    lemma_sps_vps_id(nalu.rbsp@, p);
                }
                let id: u8 = p.seq_parameter_set_id;
                let rc = Rc::new(p);
                self.spses.set(id as usize, Some(share(&rc)));
                Ok(rc)
            },
            None => Err(ParseError::Invalid),
        }
    }

    /// Parses a picture parameter set and keeps it under its identifier. The sequence
    /// parameter set that it refers to must have been parsed before.
    pub fn parse_pps(&mut self, nalu: &Nalu) -> (r: Result<Rc<Pps>, ParseError>)
        requires
            old(self).inv(),
        ensures
            final(self).inv(),
            r == Err::<Rc<Pps>, ParseError>(ParseError::WrongNaluType)
                <==> nalu.header.type_ != NaluType::PpsNut,
            r == Err::<Rc<Pps>, ParseError>(ParseError::TooLong)
                <==> nalu.header.type_ == NaluType::PpsNut
                && 8 * nalu.rbsp@.len() > usize::MAX,
            r == Err::<Rc<Pps>, ParseError>(ParseError::MissingParameterSet) <==> {
                &&& nalu.header.type_ == NaluType::PpsNut
                &&& 8 * nalu.rbsp@.len() <= usize::MAX
                &&& pps_sps_id(nalu.rbsp@) matches Some(id) && old(self).sps_at(id as u8) is None
            },
            match r {
                Ok(p) => {
                    &&& pps_parsed(nalu.rbsp@, Some(*p))
                    &&& Some(p.sps) == old(self).sps_at(p.seq_parameter_set_id)
                    &&& final(self).pps_at(p.pic_parameter_set_id) == Some(p)
                    &&& final(self).ppses_but(old(self), p.pic_parameter_set_id)
                    &&& forall|k: u8| #[trigger] final(self).vps_at(k) == old(self).vps_at(k)
                    &&& forall|k: u8| #[trigger] final(self).sps_at(k) == old(self).sps_at(k)
                },
                Err(e) => {
                    &&& e == ParseError::Invalid
                        ==> pps_sps_id(nalu.rbsp@) is None || pps_parsed(nalu.rbsp@, None)
                    &&& final(self).unchanged(old(self))
                },
            },
    {
        if nalu.header.type_ != NaluType::PpsNut {
            return Err(ParseError::WrongNaluType);
        }
        if nalu.rbsp.len() > usize::MAX / 8 {
            return Err(ParseError::TooLong);
        }
        let mut peek = reader_over(&nalu.rbsp);
        let _: u32 = peek.ue(0xff);
        let sps_id: u8 = peek.ue(0xff) as u8;
        if peek.failed() {
            return Err(ParseError::Invalid);
        }
        let sps = match share_at(&self.spses, sps_id) {
            Some(sps) => sps,
            None => return Err(ParseError::MissingParameterSet),
        };
        proof {
            assert(self.sps_at(sps_id) == Some(sps));
        }
        match read_pps(&nalu.rbsp, sps) {
            Some(p) => {
                proof {
                    lemma_pps_sps_id(nalu.rbsp@, p);
                }
                let id: u8 = p.pic_parameter_set_id;
                let rc = Rc::new(p);
                self.ppses.set(id as usize, Some(share(&rc)));
                Ok(rc)
            },
            None => Err(ParseError::Invalid),
        }
    }

    /// Parses a slice segment header. The picture parameter set that it refers to must
    /// have been parsed before.
    pub fn parse_slice_header(&self, nalu: Nalu) -> (r: Result<Slice, ParseError>)
        requires
            self.inv(),
        ensures
            r == Err::<Slice, ParseError>(ParseError::WrongNaluType)
                <==> nalu.header.type_.code() >= 32,
            r == Err::<Slice, ParseError>(ParseError::TooLong)
                <==> nalu.header.type_.code() < 32
                && 8 * nalu.rbsp@.len() > usize::MAX,
            nalu.header.type_.code() < 32 && 8 * nalu.rbsp@.len() <= usize::MAX
                ==> match slice_pps_id(nalu.rbsp@, nalu.header.type_) {
                None => r == Err::<Slice, ParseError>(ParseError::Invalid),
                Some(id) => match self.pps_at(id as u8) {
                    None => r == Err::<Slice, ParseError>(ParseError::MissingParameterSet),
                    Some(pps) => match r {
                        Ok(s) => s.nalu == nalu && slice_parsed(
                            nalu.rbsp@,
                            nalu.header.type_,
                            *pps.sps,
                            *pps,
                            Some(s.header),
                        ),
                        Err(e) => e == ParseError::Invalid && slice_parsed(
                            nalu.rbsp@,
                            nalu.header.type_,
                            *pps.sps,
                            *pps,
                            None,
                        ),
                    },
                },
            },
    {
        let nalu_type = nalu.header.type_;
        if nalu_type.to_u8() >= 32 {
            return Err(ParseError::WrongNaluType);
        }
        if nalu.rbsp.len() > usize::MAX / 8 {
            return Err(ParseError::TooLong);
        }
        let mut peek = reader_over(&nalu.rbsp);
        let _: bool = peek.flag();
        if nalu_type.is_irap() {
            let _: bool = peek.flag();
        }
        let pps_id: u8 = peek.ue(0xff) as u8;
        if peek.failed() {
            return Err(ParseError::Invalid);
        }
        let pps = match share_at(&self.ppses, pps_id) {
            Some(pps) => pps,
            None => return Err(ParseError::MissingParameterSet),
        };
        proof {
            assert(self.pps_at(pps_id) == Some(pps));
        }
        match read_slice_header(&nalu.rbsp, nalu_type, &pps.sps, &pps) {
            Some(header) => Ok(Slice { header, nalu }),
            None => Err(ParseError::Invalid),
        }
    }
}

proof fn lemma_sps_vps_id(rbsp: Seq<u8>, p: Sps)
    requires
        sps_parsed(rbsp, Some(p)),
    ensures
        p.video_parameter_set_id == sps_vps_id(rbsp),
{
    broadcast use {group_onto, group_read};

    reveal(sps_syntax);
    reveal(sps_head_syntax);
    lemma_pow2_values();
    let rest = choose|rest: Seq<bool>| bits_of(rbsp) == #[trigger] sps_syntax(p).onto(rest);
    assert(bits_of(rbsp) == sps_syntax(p).onto(rest));
}

proof fn lemma_pps_sps_id(rbsp: Seq<u8>, p: Pps)
    requires
        pps_parsed(rbsp, Some(p)),
    ensures
        pps_sps_id(rbsp) == Some(p.seq_parameter_set_id as int),
{
    broadcast use {group_onto, group_read};

    reveal(pps_syntax);
    reveal(pps_head_syntax);
    let rest = choose|rest: Seq<bool>| bits_of(rbsp) == #[trigger] pps_syntax(p).onto(rest);
    assert(bits_of(rbsp) == pps_syntax(p).onto(rest));
}

} // verus!
