//! The reader of `profile_tier_level()`.

use crate::bits::lemma_pow2_values;
use crate::codec::bit_reader::BitReader;
use crate::codec::h265::parser::common::{agree, decodes, parse_flags, parse_reserved_zero, tail_is};
use crate::codec::h265::synthesizer::{
    codes_14bit_flag, codes_inbld_flag, codes_one_picture_flag, codes_range_flags,
};
use crate::codec::h265::tables::{
    constraint_syntax, has_14bit_flag, has_inbld_flag, has_one_picture_flag, has_range_flags,
    inbld_syntax, profile_head_syntax, profile_syntax, ptl_syntax, range_flags_syntax,
    reserved_pairs_from, sub_layer_flags_from, sub_layer_syntax, sub_layers_from, ProfileFields,
};
use crate::codec::h265::types::{Level, ProfileTierLevel};
use crate::syntax::{group_onto, group_read, syntax};
use vstd::prelude::*;

verus! {

broadcast use {group_onto, group_read};

/// The flags that constrain the range extensions profiles.
pub struct RangeFlags {
    pub max_12bit_constraint_flag: bool,
    pub max_10bit_constraint_flag: bool,
    pub max_8bit_constraint_flag: bool,
    pub max_422chroma_constraint_flag: bool,
    pub max_420chroma_constraint_flag: bool,
    pub max_monochrome_constraint_flag: bool,
    pub intra_constraint_flag: bool,
    pub one_picture_only_constraint_flag: bool,
    pub lower_bit_rate_constraint_flag: bool,
}

impl RangeFlags {
    /// Whether the flags of `p` are these.
    pub open spec fn fills(self, p: ProfileFields) -> bool {
        &&& p.max_12bit_constraint_flag == self.max_12bit_constraint_flag
        &&& p.max_10bit_constraint_flag == self.max_10bit_constraint_flag
        &&& p.max_8bit_constraint_flag == self.max_8bit_constraint_flag
        &&& p.max_422chroma_constraint_flag == self.max_422chroma_constraint_flag
        &&& p.max_420chroma_constraint_flag == self.max_420chroma_constraint_flag
        &&& p.max_monochrome_constraint_flag == self.max_monochrome_constraint_flag
        &&& p.intra_constraint_flag == self.intra_constraint_flag
        &&& p.one_picture_only_constraint_flag == self.one_picture_only_constraint_flag
        &&& p.lower_bit_rate_constraint_flag == self.lower_bit_rate_constraint_flag
    }
}

/// The constraint flags in the 43 bits in front of the last one.
pub struct ConstraintFlags {
    pub range: RangeFlags,
    pub max_14bit_constraint_flag: bool,
}

impl ConstraintFlags {
    /// Whether `p` holds these flags.
    pub open spec fn fills(self, p: ProfileFields) -> bool {
        &&& self.range.fills(p)
        &&& p.max_14bit_constraint_flag == self.max_14bit_constraint_flag
    }

    /// Whether the flags that are coded of `v` are these.
    pub open spec fn same(self, v: ProfileFields) -> bool {
        let compat = v.profile_compatibility_flag@;
        &&& has_range_flags(v.profile_idc, compat) ==> {
            &&& self.range.fills(v)
            &&& has_14bit_flag(v.profile_idc, compat)
                ==> self.max_14bit_constraint_flag == v.max_14bit_constraint_flag
        }
        &&& has_one_picture_flag(v.profile_idc, compat)
            ==> self.range.one_picture_only_constraint_flag == v.one_picture_only_constraint_flag
    }
}

impl ConstraintFlags {
    /// Whether what is not coded has its initial value.
    pub open spec fn settled(self, idc: u8, compat: Seq<bool>) -> bool {
        &&& !has_range_flags(idc, compat) ==> {
            &&& !self.range.max_12bit_constraint_flag
            &&& !self.range.max_10bit_constraint_flag
            &&& !self.range.max_8bit_constraint_flag
            &&& !self.range.max_422chroma_constraint_flag
            &&& !self.range.max_420chroma_constraint_flag
            &&& !self.range.max_monochrome_constraint_flag
            &&& !self.range.intra_constraint_flag
            &&& !self.range.lower_bit_rate_constraint_flag
        }
        &&& !has_range_flags(idc, compat) && !has_one_picture_flag(idc, compat)
            ==> !self.range.one_picture_only_constraint_flag
        &&& !(has_range_flags(idc, compat) && has_14bit_flag(idc, compat))
            ==> !self.max_14bit_constraint_flag
    }
}

impl ProfileFields {
    /// The fields of a layer that is not coded.
    pub open spec fn blank() -> Self {
        ProfileFields {
            profile_space: 0,
            tier_flag: false,
            profile_idc: 0,
            profile_compatibility_flag: [false; 32usize],
            progressive_source_flag: false,
            interlaced_source_flag: false,
            non_packed_constraint_flag: false,
            frame_only_constraint_flag: false,
            max_12bit_constraint_flag: false,
            max_10bit_constraint_flag: false,
            max_8bit_constraint_flag: false,
            max_422chroma_constraint_flag: false,
            max_420chroma_constraint_flag: false,
            max_monochrome_constraint_flag: false,
            intra_constraint_flag: false,
            one_picture_only_constraint_flag: false,
            lower_bit_rate_constraint_flag: false,
            max_14bit_constraint_flag: false,
            inbld_flag: false,
        }
    }

    /// Whether what is not coded has its initial value.
    pub open spec fn settled(self) -> bool {
        let compat = self.profile_compatibility_flag@;
        &&& self.constraints().settled(self.profile_idc, compat)
        &&& !has_inbld_flag(self.profile_idc, compat) ==> !self.inbld_flag
    }

    /// The constraint flags in the 43 bits in front of the last one.
    pub open spec fn constraints(self) -> ConstraintFlags {
        ConstraintFlags {
            range: RangeFlags {
                max_12bit_constraint_flag: self.max_12bit_constraint_flag,
                max_10bit_constraint_flag: self.max_10bit_constraint_flag,
                max_8bit_constraint_flag: self.max_8bit_constraint_flag,
                max_422chroma_constraint_flag: self.max_422chroma_constraint_flag,
                max_420chroma_constraint_flag: self.max_420chroma_constraint_flag,
                max_monochrome_constraint_flag: self.max_monochrome_constraint_flag,
                intra_constraint_flag: self.intra_constraint_flag,
                one_picture_only_constraint_flag: self.one_picture_only_constraint_flag,
                lower_bit_rate_constraint_flag: self.lower_bit_rate_constraint_flag,
            },
            max_14bit_constraint_flag: self.max_14bit_constraint_flag,
        }
    }

    /// Whether the fields that are coded of `v` are these.
    pub open spec fn same(self, v: ProfileFields) -> bool {
        &&& self.profile_space == v.profile_space
        &&& self.tier_flag == v.tier_flag
        &&& self.profile_idc == v.profile_idc
        &&& self.profile_compatibility_flag@ == v.profile_compatibility_flag@
        &&& self.progressive_source_flag == v.progressive_source_flag
        &&& self.interlaced_source_flag == v.interlaced_source_flag
        &&& self.non_packed_constraint_flag == v.non_packed_constraint_flag
        &&& self.frame_only_constraint_flag == v.frame_only_constraint_flag
        &&& self.constraints().same(v)
        &&& has_inbld_flag(v.profile_idc, v.profile_compatibility_flag@)
            ==> self.inbld_flag == v.inbld_flag
    }
}

/// Settled fields that are the same as far as they are coded are equal.
proof fn lemma_profile_equal(p: ProfileFields, q: ProfileFields)
    requires
        q.same(p),
        p.settled(),
        q.settled(),
    ensures
        q == p,
{
    assert(q.profile_compatibility_flag =~= p.profile_compatibility_flag);
    assert(q.constraints() == p.constraints());
}

impl Default for ProfileFields {
    fn default() -> (r: Self)
        ensures
            r == Self::blank(),
    {
        ProfileFields {
            profile_space: 0,
            tier_flag: false,
            profile_idc: 0,
            profile_compatibility_flag: [false; 32],
            progressive_source_flag: false,
            interlaced_source_flag: false,
            non_packed_constraint_flag: false,
            frame_only_constraint_flag: false,
            max_12bit_constraint_flag: false,
            max_10bit_constraint_flag: false,
            max_8bit_constraint_flag: false,
            max_422chroma_constraint_flag: false,
            max_420chroma_constraint_flag: false,
            max_monochrome_constraint_flag: false,
            intra_constraint_flag: false,
            one_picture_only_constraint_flag: false,
            lower_bit_rate_constraint_flag: false,
            max_14bit_constraint_flag: false,
            inbld_flag: false,
        }
    }
}

/// The flags that constrain the range extensions profiles.
fn parse_range_flags(r: &mut BitReader) -> (f: RangeFlags)
    requires
        old(r).inv(),
    ensures
        final(r).inv(),
        forall|s: ProfileFields| f.fills(s)
            ==> decodes(old(r)@, #[trigger] range_flags_syntax(s), final(r)@),
        forall|v: ProfileFields, rest: Seq<bool>|
            old(r)@ == Some(#[trigger] range_flags_syntax(v).onto(rest))
                && range_flags_syntax(v).fits()
                ==> final(r)@ == Some(rest) && f.fills(v),
{
    proof {
        reveal(range_flags_syntax);
    }
    let max_12bit_constraint_flag: bool = r.flag();
    let max_10bit_constraint_flag: bool = r.flag();
    let max_8bit_constraint_flag: bool = r.flag();
    let max_422chroma_constraint_flag: bool = r.flag();
    let max_420chroma_constraint_flag: bool = r.flag();
    let max_monochrome_constraint_flag: bool = r.flag();
    let intra_constraint_flag: bool = r.flag();
    let one_picture_only_constraint_flag: bool = r.flag();
    let lower_bit_rate_constraint_flag: bool = r.flag();
    RangeFlags {
        max_12bit_constraint_flag,
        max_10bit_constraint_flag,
        max_8bit_constraint_flag,
        max_422chroma_constraint_flag,
        max_420chroma_constraint_flag,
        max_monochrome_constraint_flag,
        intra_constraint_flag,
        one_picture_only_constraint_flag,
        lower_bit_rate_constraint_flag,
    }
}

/// The 43 bits of constraint flags.
fn parse_constraint_flags(r: &mut BitReader, idc: u8, compat: &[bool; 32]) -> (f: ConstraintFlags)
    requires
        old(r).inv(),
    ensures
        final(r).inv(),
        forall|s: ProfileFields|
            s.profile_idc == idc && s.profile_compatibility_flag@ == compat@ && f.fills(s)
                ==> decodes(
                old(r)@,
                #[trigger] constraint_syntax(s),
                final(r)@,
            ),
        forall|v: ProfileFields, rest: Seq<bool>|
            v.profile_idc == idc && v.profile_compatibility_flag@ == compat@ && old(r)@ == Some(
                #[trigger] constraint_syntax(v).onto(rest),
            ) && constraint_syntax(v).fits() ==> final(r)@ == Some(rest) && f.same(v),
        f.settled(idc, compat@),
{
    proof {
        reveal(constraint_syntax);
    }
    let mut range = RangeFlags {
        max_12bit_constraint_flag: false,
        max_10bit_constraint_flag: false,
        max_8bit_constraint_flag: false,
        max_422chroma_constraint_flag: false,
        max_420chroma_constraint_flag: false,
        max_monochrome_constraint_flag: false,
        intra_constraint_flag: false,
        one_picture_only_constraint_flag: false,
        lower_bit_rate_constraint_flag: false,
    };
    let mut max_14bit_constraint_flag: bool = false;
    let one_picture = codes_one_picture_flag(idc, compat);
    if codes_range_flags(idc, compat) {
        range = parse_range_flags(r);
        if codes_14bit_flag(idc, compat) {
            max_14bit_constraint_flag = r.flag();
            parse_reserved_zero(r, 33);
        } else {
            parse_reserved_zero(r, 34);
        }
    } else if one_picture {
        parse_reserved_zero(r, 7);
        range.one_picture_only_constraint_flag = r.flag();
        parse_reserved_zero(r, 35);
    } else {
        parse_reserved_zero(r, 43);
    }
    ConstraintFlags { range, max_14bit_constraint_flag }
}

/// `general_inbld_flag`, or the reserved bit in its place.
fn parse_inbld_flag(r: &mut BitReader, idc: u8, compat: &[bool; 32]) -> (inbld_flag: bool)
    requires
        old(r).inv(),
    ensures
        final(r).inv(),
        forall|s: ProfileFields|
            s.profile_idc == idc && s.profile_compatibility_flag@ == compat@
                && s.inbld_flag == inbld_flag
                ==> decodes(old(r)@, #[trigger] inbld_syntax(s), final(r)@),
        forall|v: ProfileFields, rest: Seq<bool>|
            v.profile_idc == idc && v.profile_compatibility_flag@ == compat@ && old(r)@ == Some(
                #[trigger] inbld_syntax(v).onto(rest),
            ) && inbld_syntax(v).fits()
                ==> final(r)@ == Some(rest)
                    && (has_inbld_flag(idc, compat@) ==> inbld_flag == v.inbld_flag),
        !has_inbld_flag(idc, compat@) ==> !inbld_flag,
{
    proof {
        reveal(inbld_syntax);
    }
    if codes_inbld_flag(idc, compat) {
        r.flag()
    } else {
        parse_reserved_zero(r, 1);
        false
    }
}

/// The profile, its compatibility flags and the source flags.
pub struct ProfileHead {
    pub profile_space: u8,
    pub tier_flag: bool,
    pub profile_idc: u8,
    pub profile_compatibility_flag: [bool; 32],
    pub progressive_source_flag: bool,
    pub interlaced_source_flag: bool,
    pub non_packed_constraint_flag: bool,
    pub frame_only_constraint_flag: bool,
}

impl ProfileHead {
    /// Whether `p` holds these fields.
    pub open spec fn fills(self, p: ProfileFields) -> bool {
        &&& p.profile_space == self.profile_space
        &&& p.tier_flag == self.tier_flag
        &&& p.profile_idc == self.profile_idc
        &&& p.profile_compatibility_flag@ == self.profile_compatibility_flag@
        &&& p.progressive_source_flag == self.progressive_source_flag
        &&& p.interlaced_source_flag == self.interlaced_source_flag
        &&& p.non_packed_constraint_flag == self.non_packed_constraint_flag
        &&& p.frame_only_constraint_flag == self.frame_only_constraint_flag
    }
}

/// The profile, its compatibility flags and the source flags.
fn parse_profile_head(r: &mut BitReader) -> (f: ProfileHead)
    requires
        old(r).inv(),
    ensures
        final(r).inv(),
        forall|s: ProfileFields| f.fills(s)
            ==> decodes(old(r)@, #[trigger] profile_head_syntax(s), final(r)@),
        forall|v: ProfileFields, rest: Seq<bool>|
            old(r)@ == Some(#[trigger] profile_head_syntax(v).onto(rest))
                && profile_head_syntax(v).fits()
                ==> final(r)@ == Some(rest) && f.fills(v),
{
    proof {
        reveal(profile_head_syntax);
    }
    proof {
        lemma_pow2_values();
    }
    let ghost start = r@;
    let profile_space: u8 = r.u(2) as u8;
    let tier_flag: bool = r.flag();
    let profile_idc: u8 = r.u(5) as u8;
    let profile_compatibility_flag: [bool; 32] = parse_flags::<32>(r, 32);
    let progressive_source_flag: bool = r.flag();
    let interlaced_source_flag: bool = r.flag();
    let non_packed_constraint_flag: bool = r.flag();
    let frame_only_constraint_flag: bool = r.flag();
    let f = ProfileHead {
        profile_space,
        tier_flag,
        profile_idc,
        profile_compatibility_flag,
        progressive_source_flag,
        interlaced_source_flag,
        non_packed_constraint_flag,
        frame_only_constraint_flag,
    };
    proof {
        assert forall|v: ProfileFields, rest: Seq<bool>|
            start == Some(#[trigger] profile_head_syntax(v).onto(rest))
                && profile_head_syntax(v).fits()
                implies r@
            == Some(rest) && f.fills(v) by {
            assert(agree(profile_compatibility_flag@, v.profile_compatibility_flag@, 32));
            assert(v.profile_compatibility_flag@ =~= profile_compatibility_flag@);
        }
    }
    f
}

/// The profile fields that hold these.
fn assemble_profile(h: &ProfileHead, c: &ConstraintFlags, inbld_flag: bool) -> (p: ProfileFields)
    ensures
        h.fills(p),
        p.constraints() == *c,
        p.inbld_flag == inbld_flag,
{
    ProfileFields {
        profile_space: h.profile_space,
        tier_flag: h.tier_flag,
        profile_idc: h.profile_idc,
        profile_compatibility_flag: h.profile_compatibility_flag,
        progressive_source_flag: h.progressive_source_flag,
        interlaced_source_flag: h.interlaced_source_flag,
        non_packed_constraint_flag: h.non_packed_constraint_flag,
        frame_only_constraint_flag: h.frame_only_constraint_flag,
        max_12bit_constraint_flag: c.range.max_12bit_constraint_flag,
        max_10bit_constraint_flag: c.range.max_10bit_constraint_flag,
        max_8bit_constraint_flag: c.range.max_8bit_constraint_flag,
        max_422chroma_constraint_flag: c.range.max_422chroma_constraint_flag,
        max_420chroma_constraint_flag: c.range.max_420chroma_constraint_flag,
        max_monochrome_constraint_flag: c.range.max_monochrome_constraint_flag,
        intra_constraint_flag: c.range.intra_constraint_flag,
        one_picture_only_constraint_flag: c.range.one_picture_only_constraint_flag,
        lower_bit_rate_constraint_flag: c.range.lower_bit_rate_constraint_flag,
        max_14bit_constraint_flag: c.max_14bit_constraint_flag,
        inbld_flag,
    }
}

/// The profile fields of one layer.
fn parse_profile_fields(r: &mut BitReader) -> (p: ProfileFields)
    requires
        old(r).inv(),
    ensures
        final(r).inv(),
        decodes(old(r)@, profile_syntax(p), final(r)@),
        forall|v: ProfileFields, rest: Seq<bool>|
            old(r)@ == Some(#[trigger] profile_syntax(v).onto(rest)) && profile_syntax(v).fits()
                ==> final(r)@
                == Some(rest) && p.same(v),
        p.settled(),
{
    proof {
        reveal(profile_syntax);
    }
    let h = parse_profile_head(r);
    let c = parse_constraint_flags(r, h.profile_idc, &h.profile_compatibility_flag);
    let inbld_flag = parse_inbld_flag(r, h.profile_idc, &h.profile_compatibility_flag);
    assemble_profile(&h, &c, inbld_flag)
}

/// The present flags of the sub-layers.
fn parse_sub_layer_flags(r: &mut BitReader, n: usize) -> (a: ([bool; 6], [bool; 6]))
    requires
        old(r).inv(),
        n <= 6,
    ensures
        final(r).inv(),
        final(r)@ is Some ==> old(r)@ is Some,
        forall|s: ProfileTierLevel|
            agree(a.0@, s.sub_layer_profile_present_flag@, n as int)
                && agree(a.1@, s.sub_layer_level_present_flag@, n as int)
                ==> decodes(old(r)@, #[trigger] sub_layer_flags_from(s, 0, n as int), final(r)@),
        forall|v: ProfileTierLevel, rest: Seq<bool>|
            old(r)@ == Some(#[trigger] sub_layer_flags_from(v, 0, n as int).onto(rest))
                && sub_layer_flags_from(v, 0, n as int).fits()
                ==> final(r)@ == Some(rest)
                    && agree(a.0@, v.sub_layer_profile_present_flag@, n as int)
                    && agree(a.1@, v.sub_layer_level_present_flag@, n as int),
        tail_is(a.0@, n as int, false),
        tail_is(a.1@, n as int, false),
{
    let mut a: ([bool; 6], [bool; 6]) = ([false; 6], [false; 6]);
    let mut i: usize = 0;
    while i < n
        invariant
            i <= n <= 6,
            tail_is(a.0@, i as int, false),
            tail_is(a.1@, i as int, false),
            r.inv(),
            r@ is Some ==> old(r)@ is Some,
            forall|s: ProfileTierLevel, rest: Seq<bool>|
                agree(a.0@, s.sub_layer_profile_present_flag@, i as int)
                    && agree(a.1@, s.sub_layer_level_present_flag@, i as int)
                    && r@ == Some(sub_layer_flags_from(s, i as int, n as int).onto(rest))
                    ==> old(r)@
                    == Some(#[trigger] sub_layer_flags_from(s, 0, n as int).onto(rest)),
            forall|s: ProfileTierLevel|
                agree(a.0@, s.sub_layer_profile_present_flag@, i as int)
                    && agree(a.1@, s.sub_layer_level_present_flag@, i as int) && r@ is Some
                    && sub_layer_flags_from(s, i as int, n as int).fits()
                    ==> #[trigger] sub_layer_flags_from(s, 0, n as int).fits(),
            forall|v: ProfileTierLevel, rest: Seq<bool>|
                old(r)@ == Some(#[trigger] sub_layer_flags_from(v, 0, n as int).onto(rest))
                    && sub_layer_flags_from(v, 0, n as int).fits()
                    ==> r@ == Some(sub_layer_flags_from(v, i as int, n as int).onto(rest))
                        && sub_layer_flags_from(v, i as int, n as int).fits()
                        && agree(a.0@, v.sub_layer_profile_present_flag@, i as int)
                        && agree(a.1@, v.sub_layer_level_present_flag@, i as int),
        decreases n - i,
    {
        a.0[i] = r.flag();
        a.1[i] = r.flag();
        i = i + 1;
    }
    a
}

/// `reserved_zero_2bits` for each sub-layer from `n` up to eight.
fn parse_reserved_pairs(r: &mut BitReader, n: usize)
    requires
        old(r).inv(),
        n <= 8,
    ensures
        final(r).inv(),
        decodes(old(r)@, reserved_pairs_from(n as int), final(r)@),
        forall|rest: Seq<bool>|
            old(r)@ == Some(#[trigger] reserved_pairs_from(n as int).onto(rest))
                && reserved_pairs_from(
                n as int,
            ).fits() ==> final(r)@ == Some(rest),
{
    let mut i: usize = n;
    while i < 8
        invariant
            i <= 8,
            r.inv(),
            forall|rest: Seq<bool>|
                r@ == Some(reserved_pairs_from(i as int).onto(rest)) ==> old(r)@ == Some(
                    #[trigger] reserved_pairs_from(n as int).onto(rest),
                ),
            r@ is Some && reserved_pairs_from(i as int).fits()
                ==> reserved_pairs_from(n as int).fits(),
            forall|rest: Seq<bool>|
                old(r)@ == Some(#[trigger] reserved_pairs_from(n as int).onto(rest))
                    && reserved_pairs_from(
                    n as int,
                ).fits()
                    ==> r@ == Some(reserved_pairs_from(i as int).onto(rest)) && reserved_pairs_from(
                    i as int,
                ).fits(),
        decreases 8 - i,
    {
        parse_reserved_zero(r, 2);
        i = i + 1;
    }
}

/// The profile fields and the levels of the sub-layers.
pub struct SubLayers {
    pub profiles: [ProfileFields; 6],
    pub levels: [Level; 6],
}

impl SubLayers {
    /// Whether the first `n` sub-layers of `s` are these.
    pub open spec fn fills(self, s: ProfileTierLevel, n: int) -> bool {
        forall|k: int| #![trigger self.profiles@[k]] #![trigger s.sub_layer(k)] #![trigger s.sub_layer_level_idc@[k]]
            0 <= k < n
                ==> s.sub_layer(k) == self.profiles@[k]
                    && s.sub_layer_level_idc@[k] == self.levels@[k]
    }

    /// Whether what is coded of the first `n` sub-layers of `v` is in these.
    pub open spec fn same(self, v: ProfileTierLevel, n: int) -> bool {
        forall|k: int| #![trigger self.profiles@[k]] #![trigger v.sub_layer(k)] #![trigger v.sub_layer_level_idc@[k]]
            0 <= k < n ==> {
                &&& v.sub_layer_profile_present_flag@[k] ==> self.profiles@[k].same(v.sub_layer(k))
                &&& v.sub_layer_level_present_flag@[k]
                    ==> self.levels@[k] == v.sub_layer_level_idc@[k]
            }
    }
}

impl SubLayers {
    /// Whether what is not coded of `n` sub-layers has its initial value.
    pub open spec fn settled(self, flags: ([bool; 6], [bool; 6]), n: int) -> bool {
        &&& forall|k: int|
            0 <= k < n ==> layer_settled(flags.0@[k], #[trigger] self.profiles@[k])
        &&& forall|k: int|
            0 <= k < n && !flags.1@[k] ==> #[trigger] self.levels@[k] == Level::L1
        &&& tail_is(self.profiles@, n, ProfileFields::blank())
        &&& tail_is(self.levels@, n, Level::L1)
    }
}

/// Whether what is not coded of the profile fields of a layer has its initial value.
pub open spec fn layer_settled(present: bool, p: ProfileFields) -> bool {
    if present {
        p.settled()
    } else {
        p == ProfileFields::blank()
    }
}

/// Whether the present flags of the sub-layers of `s` are these.
pub open spec fn present_flags(flags: ([bool; 6], [bool; 6]), s: ProfileTierLevel, n: int) -> bool {
    &&& agree(flags.0@, s.sub_layer_profile_present_flag@, n)
    &&& agree(flags.1@, s.sub_layer_level_present_flag@, n)
}

/// A level.
pub(crate) fn parse_level(r: &mut BitReader) -> (level: Level)
    requires
        old(r).inv(),
    ensures
        final(r).inv(),
        decodes(old(r)@, syntax().u(8, level.code() as int), final(r)@),
        forall|v: Level, rest: Seq<bool>|
            old(r)@ == Some(#[trigger] crate::syntax::u(8, v.code() as int).onto(rest))
                ==> final(r)@ == Some(rest)
                && level == v,
{
    proof {
        lemma_pow2_values();
    }
    let v: u8 = r.u(8) as u8;
    match Level::from_u8(v) {
        Some(level) => level,
        None => {
            r.require(false);
            Level::L1
        },
    }
}

/// The sub-layers.
fn parse_sub_layers(r: &mut BitReader, flags: &([bool; 6], [bool; 6]), n: usize) -> (a: SubLayers)
    requires
        old(r).inv(),
        n <= 6,
    ensures
        final(r).inv(),
        final(r)@ is Some ==> old(r)@ is Some,
        forall|s: ProfileTierLevel|
            present_flags(*flags, s, n as int) && a.fills(s, n as int)
                ==> decodes(old(r)@, #[trigger] sub_layers_from(s, 0, n as int), final(r)@),
        forall|v: ProfileTierLevel, rest: Seq<bool>|
            old(r)@ == Some(#[trigger] sub_layers_from(v, 0, n as int).onto(rest))
                && sub_layers_from(v, 0, n as int).fits() && present_flags(*flags, v, n as int)
                ==> final(r)@ == Some(rest) && a.same(v, n as int),
        a.settled(*flags, n as int),
{
    let mut a = SubLayers { profiles: [ProfileFields::default(); 6], levels: [Level::L1; 6] };
    let mut i: usize = 0;
    while i < n
        invariant
            i <= n <= 6,
            a.settled(*flags, i as int),
            r.inv(),
            r@ is Some ==> old(r)@ is Some,
            forall|s: ProfileTierLevel, rest: Seq<bool>|
                present_flags(*flags, s, n as int) && a.fills(s, i as int)
                    && r@ == Some(sub_layers_from(s, i as int, n as int).onto(rest))
                    ==> old(r)@
                    == Some(#[trigger] sub_layers_from(s, 0, n as int).onto(rest)),
            forall|s: ProfileTierLevel|
                present_flags(*flags, s, n as int) && a.fills(s, i as int) && r@ is Some
                    && sub_layers_from(s, i as int, n as int).fits()
                    ==> #[trigger] sub_layers_from(s, 0, n as int).fits(),
            forall|v: ProfileTierLevel, rest: Seq<bool>|
                old(r)@ == Some(#[trigger] sub_layers_from(v, 0, n as int).onto(rest))
                    && sub_layers_from(v, 0, n as int).fits() && present_flags(*flags, v, n as int)
                    ==> r@ == Some(sub_layers_from(v, i as int, n as int).onto(rest))
                        && sub_layers_from(v, i as int, n as int).fits() && a.same(v, i as int),
        decreases n - i,
    {
        proof {
            reveal(sub_layer_syntax);
        }
        let mut profile = ProfileFields::default();
        let mut level = Level::L1;
        if flags.0[i] {
            profile = parse_profile_fields(r);
        }
        if flags.1[i] {
            level = parse_level(r);
        }
        a.profiles[i] = profile;
        a.levels[i] = level;
        i = i + 1;
    }
    a
}

/// Whether the fields that are coded of `v` are those of `p`.
pub open spec fn ptl_same(
    p: ProfileTierLevel,
    v: ProfileTierLevel,
    profile_present_flag: bool,
    max_sub_layers_minus1: int,
) -> bool {
    &&& profile_present_flag ==> p.general().same(v.general())
    &&& p.general_level_idc == v.general_level_idc
    &&& forall|k: int|
        #![trigger v.sub_layer(k)]
        #![trigger p.sub_layer(k)]
        0 <= k < max_sub_layers_minus1 ==> {
            &&& p.sub_layer_profile_present_flag@[k] == v.sub_layer_profile_present_flag@[k]
            &&& p.sub_layer_level_present_flag@[k] == v.sub_layer_level_present_flag@[k]
            &&& v.sub_layer_profile_present_flag@[k] ==> p.sub_layer(k).same(v.sub_layer(k))
            &&& v.sub_layer_level_present_flag@[k]
                ==> p.sub_layer_level_idc@[k] == v.sub_layer_level_idc@[k]
        }
}

/// Whether what is not coded has its initial value.
pub open spec fn ptl_settled(
    p: ProfileTierLevel,
    profile_present_flag: bool,
    max_sub_layers_minus1: int,
) -> bool {
    &&& layer_settled(profile_present_flag, p.general())
    &&& tail_is(p.sub_layer_profile_present_flag@, max_sub_layers_minus1, false)
    &&& tail_is(p.sub_layer_level_present_flag@, max_sub_layers_minus1, false)
    &&& forall|k: int|
        0 <= k < 6 ==> layer_settled(
            p.sub_layer_profile_present_flag@[k],
            #[trigger] p.sub_layer(k),
        )
    &&& forall|k: int|
        0 <= k < 6 && !p.sub_layer_level_present_flag@[k]
            ==> #[trigger] p.sub_layer_level_idc@[k] == Level::L1
}

/// Settled structures that are the same as far as they are coded are equal.
pub proof fn lemma_ptl_equal(p: ProfileTierLevel, q: ProfileTierLevel, max_sub_layers_minus1: int)
    requires
        max_sub_layers_minus1 <= 6,
        ptl_same(q, p, true, max_sub_layers_minus1),
        ptl_settled(p, true, max_sub_layers_minus1),
        ptl_settled(q, true, max_sub_layers_minus1),
    ensures
        q == p,
{
    lemma_profile_equal(p.general(), q.general());
    assert forall|k: int| 0 <= k < 6 implies {
        &&& q.sub_layer(k) == p.sub_layer(k)
        &&& q.sub_layer_profile_present_flag@[k] == p.sub_layer_profile_present_flag@[k]
        &&& q.sub_layer_level_present_flag@[k] == p.sub_layer_level_present_flag@[k]
        &&& q.sub_layer_level_idc@[k] == p.sub_layer_level_idc@[k]
    } by {
        assert(layer_settled(p.sub_layer_profile_present_flag@[k], p.sub_layer(k)));
        assert(layer_settled(q.sub_layer_profile_present_flag@[k], q.sub_layer(k)));
        if k < max_sub_layers_minus1 && p.sub_layer_profile_present_flag@[k] {
            lemma_profile_equal(p.sub_layer(k), q.sub_layer(k));
        }
    }
    assert forall|k: int| 0 <= k < 6 implies {
        &&& q.sub_layer_profile_space@[k] == p.sub_layer_profile_space@[k]
        &&& q.sub_layer_tier_flag@[k] == p.sub_layer_tier_flag@[k]
        &&& q.sub_layer_profile_idc@[k] == p.sub_layer_profile_idc@[k]
        &&& q.sub_layer_profile_compatibility_flag@[k] == p.sub_layer_profile_compatibility_flag@[k]
        &&& q.sub_layer_progressive_source_flag@[k] == p.sub_layer_progressive_source_flag@[k]
        &&& q.sub_layer_interlaced_source_flag@[k] == p.sub_layer_interlaced_source_flag@[k]
        &&& q.sub_layer_non_packed_constraint_flag@[k] == p.sub_layer_non_packed_constraint_flag@[k]
        &&& q.sub_layer_frame_only_constraint_flag@[k] == p.sub_layer_frame_only_constraint_flag@[k]
        &&& q.sub_layer_max_12bit_constraint_flag@[k] == p.sub_layer_max_12bit_constraint_flag@[k]
        &&& q.sub_layer_max_10bit_constraint_flag@[k] == p.sub_layer_max_10bit_constraint_flag@[k]
        &&& q.sub_layer_max_8bit_constraint_flag@[k] == p.sub_layer_max_8bit_constraint_flag@[k]
        &&& q.sub_layer_max_422chroma_constraint_flag@[k]
            == p.sub_layer_max_422chroma_constraint_flag@[k]
        &&& q.sub_layer_max_420chroma_constraint_flag@[k]
            == p.sub_layer_max_420chroma_constraint_flag@[k]
        &&& q.sub_layer_max_monochrome_constraint_flag@[k]
            == p.sub_layer_max_monochrome_constraint_flag@[k]
        &&& q.sub_layer_intra_constraint_flag@[k] == p.sub_layer_intra_constraint_flag@[k]
        &&& q.sub_layer_one_picture_only_constraint_flag@[k]
            == p.sub_layer_one_picture_only_constraint_flag@[k]
        &&& q.sub_layer_lower_bit_rate_constraint_flag@[k]
            == p.sub_layer_lower_bit_rate_constraint_flag@[k]
        &&& q.sub_layer_max_14bit_constraint_flag@[k] == p.sub_layer_max_14bit_constraint_flag@[k]
        &&& q.sub_layer_inbld_flag@[k] == p.sub_layer_inbld_flag@[k]
        &&& q.sub_layer_profile_present_flag@[k] == p.sub_layer_profile_present_flag@[k]
        &&& q.sub_layer_level_present_flag@[k] == p.sub_layer_level_present_flag@[k]
        &&& q.sub_layer_level_idc@[k] == p.sub_layer_level_idc@[k]
    } by {
        assert(q.sub_layer(k) == p.sub_layer(k));
    }
    assert(q.sub_layer_profile_space =~= p.sub_layer_profile_space);
    assert(q.sub_layer_tier_flag =~= p.sub_layer_tier_flag);
    assert(q.sub_layer_profile_idc =~= p.sub_layer_profile_idc);
    assert(q.sub_layer_profile_compatibility_flag =~= p.sub_layer_profile_compatibility_flag);
    assert(q.sub_layer_progressive_source_flag =~= p.sub_layer_progressive_source_flag);
    assert(q.sub_layer_interlaced_source_flag =~= p.sub_layer_interlaced_source_flag);
    assert(q.sub_layer_non_packed_constraint_flag =~= p.sub_layer_non_packed_constraint_flag);
    assert(q.sub_layer_frame_only_constraint_flag =~= p.sub_layer_frame_only_constraint_flag);
    assert(q.sub_layer_max_12bit_constraint_flag =~= p.sub_layer_max_12bit_constraint_flag);
    assert(q.sub_layer_max_10bit_constraint_flag =~= p.sub_layer_max_10bit_constraint_flag);
    assert(q.sub_layer_max_8bit_constraint_flag =~= p.sub_layer_max_8bit_constraint_flag);
    assert(q.sub_layer_max_422chroma_constraint_flag =~= p.sub_layer_max_422chroma_constraint_flag);
    assert(q.sub_layer_max_420chroma_constraint_flag =~= p.sub_layer_max_420chroma_constraint_flag);
    assert(q.sub_layer_max_monochrome_constraint_flag
        =~= p.sub_layer_max_monochrome_constraint_flag);
    assert(q.sub_layer_intra_constraint_flag =~= p.sub_layer_intra_constraint_flag);
    assert(q.sub_layer_one_picture_only_constraint_flag
        =~= p.sub_layer_one_picture_only_constraint_flag);
    assert(q.sub_layer_lower_bit_rate_constraint_flag
        =~= p.sub_layer_lower_bit_rate_constraint_flag);
    assert(q.sub_layer_max_14bit_constraint_flag =~= p.sub_layer_max_14bit_constraint_flag);
    assert(q.sub_layer_inbld_flag =~= p.sub_layer_inbld_flag);
    assert(q.sub_layer_profile_present_flag =~= p.sub_layer_profile_present_flag);
    assert(q.sub_layer_level_present_flag =~= p.sub_layer_level_present_flag);
    assert(q.sub_layer_level_idc =~= p.sub_layer_level_idc);
    assert(q.general() == p.general());
}

/// An array of six values.
fn six<T: Copy>(a: T, b: T, c: T, d: T, e: T, f: T) -> (r: [T; 6])
    ensures
        r@[0] == a,
        r@[1] == b,
        r@[2] == c,
        r@[3] == d,
        r@[4] == e,
        r@[5] == f,
{
    [a, b, c, d, e, f]
}

/// The structure that holds these fields.
#[verifier::rlimit(50)]
fn assemble_ptl(
    general: ProfileFields,
    level: Level,
    flags: ([bool; 6], [bool; 6]),
    sub: SubLayers,
) -> (p: ProfileTierLevel)
    ensures
        p.general() == general,
        p.general_level_idc == level,
        p.sub_layer_profile_present_flag == flags.0,
        p.sub_layer_level_present_flag == flags.1,
        sub.fills(p, 6),
{
    let s = &sub.profiles;
    let p = ProfileTierLevel {
        general_profile_space: general.profile_space,
        general_tier_flag: general.tier_flag,
        general_profile_idc: general.profile_idc,
        general_profile_compatibility_flag: general.profile_compatibility_flag,
        general_progressive_source_flag: general.progressive_source_flag,
        general_interlaced_source_flag: general.interlaced_source_flag,
        general_non_packed_constraint_flag: general.non_packed_constraint_flag,
        general_frame_only_constraint_flag: general.frame_only_constraint_flag,
        general_max_12bit_constraint_flag: general.max_12bit_constraint_flag,
        general_max_10bit_constraint_flag: general.max_10bit_constraint_flag,
        general_max_8bit_constraint_flag: general.max_8bit_constraint_flag,
        general_max_422chroma_constraint_flag: general.max_422chroma_constraint_flag,
        general_max_420chroma_constraint_flag: general.max_420chroma_constraint_flag,
        general_max_monochrome_constraint_flag: general.max_monochrome_constraint_flag,
        general_intra_constraint_flag: general.intra_constraint_flag,
        general_one_picture_only_constraint_flag: general.one_picture_only_constraint_flag,
        general_lower_bit_rate_constraint_flag: general.lower_bit_rate_constraint_flag,
        general_max_14bit_constraint_flag: general.max_14bit_constraint_flag,
        general_inbld_flag: general.inbld_flag,
        general_level_idc: level,
        sub_layer_profile_present_flag: flags.0,
        sub_layer_level_present_flag: flags.1,
        sub_layer_profile_space: six(
            s[0].profile_space,
            s[1].profile_space,
            s[2].profile_space,
            s[3].profile_space,
            s[4].profile_space,
            s[5].profile_space,
        ),
        sub_layer_tier_flag: six(
            s[0].tier_flag,
            s[1].tier_flag,
            s[2].tier_flag,
            s[3].tier_flag,
            s[4].tier_flag,
            s[5].tier_flag,
        ),
        sub_layer_profile_idc: six(
            s[0].profile_idc,
            s[1].profile_idc,
            s[2].profile_idc,
            s[3].profile_idc,
            s[4].profile_idc,
            s[5].profile_idc,
        ),
        sub_layer_profile_compatibility_flag: six(
            s[0].profile_compatibility_flag,
            s[1].profile_compatibility_flag,
            s[2].profile_compatibility_flag,
            s[3].profile_compatibility_flag,
            s[4].profile_compatibility_flag,
            s[5].profile_compatibility_flag,
        ),
        sub_layer_progressive_source_flag: six(
            s[0].progressive_source_flag,
            s[1].progressive_source_flag,
            s[2].progressive_source_flag,
            s[3].progressive_source_flag,
            s[4].progressive_source_flag,
            s[5].progressive_source_flag,
        ),
        sub_layer_interlaced_source_flag: six(
            s[0].interlaced_source_flag,
            s[1].interlaced_source_flag,
            s[2].interlaced_source_flag,
            s[3].interlaced_source_flag,
            s[4].interlaced_source_flag,
            s[5].interlaced_source_flag,
        ),
        sub_layer_non_packed_constraint_flag: six(
            s[0].non_packed_constraint_flag,
            s[1].non_packed_constraint_flag,
            s[2].non_packed_constraint_flag,
            s[3].non_packed_constraint_flag,
            s[4].non_packed_constraint_flag,
            s[5].non_packed_constraint_flag,
        ),
        sub_layer_frame_only_constraint_flag: six(
            s[0].frame_only_constraint_flag,
            s[1].frame_only_constraint_flag,
            s[2].frame_only_constraint_flag,
            s[3].frame_only_constraint_flag,
            s[4].frame_only_constraint_flag,
            s[5].frame_only_constraint_flag,
        ),
        sub_layer_max_12bit_constraint_flag: six(
            s[0].max_12bit_constraint_flag,
            s[1].max_12bit_constraint_flag,
            s[2].max_12bit_constraint_flag,
            s[3].max_12bit_constraint_flag,
            s[4].max_12bit_constraint_flag,
            s[5].max_12bit_constraint_flag,
        ),
        sub_layer_max_10bit_constraint_flag: six(
            s[0].max_10bit_constraint_flag,
            s[1].max_10bit_constraint_flag,
            s[2].max_10bit_constraint_flag,
            s[3].max_10bit_constraint_flag,
            s[4].max_10bit_constraint_flag,
            s[5].max_10bit_constraint_flag,
        ),
        sub_layer_max_8bit_constraint_flag: six(
            s[0].max_8bit_constraint_flag,
            s[1].max_8bit_constraint_flag,
            s[2].max_8bit_constraint_flag,
            s[3].max_8bit_constraint_flag,
            s[4].max_8bit_constraint_flag,
            s[5].max_8bit_constraint_flag,
        ),
        sub_layer_max_422chroma_constraint_flag: six(
            s[0].max_422chroma_constraint_flag,
            s[1].max_422chroma_constraint_flag,
            s[2].max_422chroma_constraint_flag,
            s[3].max_422chroma_constraint_flag,
            s[4].max_422chroma_constraint_flag,
            s[5].max_422chroma_constraint_flag,
        ),
        sub_layer_max_420chroma_constraint_flag: six(
            s[0].max_420chroma_constraint_flag,
            s[1].max_420chroma_constraint_flag,
            s[2].max_420chroma_constraint_flag,
            s[3].max_420chroma_constraint_flag,
            s[4].max_420chroma_constraint_flag,
            s[5].max_420chroma_constraint_flag,
        ),
        sub_layer_max_monochrome_constraint_flag: six(
            s[0].max_monochrome_constraint_flag,
            s[1].max_monochrome_constraint_flag,
            s[2].max_monochrome_constraint_flag,
            s[3].max_monochrome_constraint_flag,
            s[4].max_monochrome_constraint_flag,
            s[5].max_monochrome_constraint_flag,
        ),
        sub_layer_intra_constraint_flag: six(
            s[0].intra_constraint_flag,
            s[1].intra_constraint_flag,
            s[2].intra_constraint_flag,
            s[3].intra_constraint_flag,
            s[4].intra_constraint_flag,
            s[5].intra_constraint_flag,
        ),
        sub_layer_one_picture_only_constraint_flag: six(
            s[0].one_picture_only_constraint_flag,
            s[1].one_picture_only_constraint_flag,
            s[2].one_picture_only_constraint_flag,
            s[3].one_picture_only_constraint_flag,
            s[4].one_picture_only_constraint_flag,
            s[5].one_picture_only_constraint_flag,
        ),
        sub_layer_lower_bit_rate_constraint_flag: six(
            s[0].lower_bit_rate_constraint_flag,
            s[1].lower_bit_rate_constraint_flag,
            s[2].lower_bit_rate_constraint_flag,
            s[3].lower_bit_rate_constraint_flag,
            s[4].lower_bit_rate_constraint_flag,
            s[5].lower_bit_rate_constraint_flag,
        ),
        sub_layer_max_14bit_constraint_flag: six(
            s[0].max_14bit_constraint_flag,
            s[1].max_14bit_constraint_flag,
            s[2].max_14bit_constraint_flag,
            s[3].max_14bit_constraint_flag,
            s[4].max_14bit_constraint_flag,
            s[5].max_14bit_constraint_flag,
        ),
        sub_layer_inbld_flag: six(
            s[0].inbld_flag,
            s[1].inbld_flag,
            s[2].inbld_flag,
            s[3].inbld_flag,
            s[4].inbld_flag,
            s[5].inbld_flag,
        ),
        sub_layer_level_idc: sub.levels,
    };
    proof {
        assert forall|k: int| 0 <= k < 6 implies p.sub_layer(k) == s@[k] by {
            if k == 0 {
            } else if k == 1 {
            } else if k == 2 {
            } else if k == 3 {
            } else if k == 4 {
            } else {
            }
        }
    }
    p
}

/// `profile_tier_level()` (7.3.3).
pub(crate) fn parse_profile_tier_level(
    r: &mut BitReader,
    profile_present_flag: bool,
    max_sub_layers_minus1: u8,
) -> (p: ProfileTierLevel)
    requires
        old(r).inv(),
        max_sub_layers_minus1 <= 6,
    ensures
        final(r).inv(),
        decodes(
            old(r)@,
            ptl_syntax(p, profile_present_flag, max_sub_layers_minus1 as int),
            final(r)@,
        ),
        forall|v: ProfileTierLevel, rest: Seq<bool>|
            old(r)@ == Some(#[trigger] ptl_syntax(v, profile_present_flag, max_sub_layers_minus1 as int).onto(rest))
                && ptl_syntax(v, profile_present_flag, max_sub_layers_minus1 as int).fits()
                    ==> final(r)@ == Some(
                rest,
            ) && ptl_same(p, v, profile_present_flag, max_sub_layers_minus1 as int),
        ptl_settled(p, profile_present_flag, max_sub_layers_minus1 as int),
{
    proof {
        reveal(ptl_syntax);
    }
    let n: usize = max_sub_layers_minus1 as usize;
    let mut general = ProfileFields::default();
    if profile_present_flag {
        general = parse_profile_fields(r);
    }
    let level = parse_level(r);
    let flags = parse_sub_layer_flags(r, n);
    if n > 0 {
        parse_reserved_pairs(r, n);
    }
    let sub = parse_sub_layers(r, &flags, n);
    let p = assemble_ptl(general, level, flags, sub);
    proof {
        assert(present_flags(flags, p, n as int));
        assert(sub.fills(p, n as int));
        assert forall|k: int| 0 <= k < 6 implies layer_settled(
            p.sub_layer_profile_present_flag@[k],
            #[trigger] p.sub_layer(k),
        ) by {
            assert(p.sub_layer(k) == sub.profiles@[k]);
        }
        assert forall|k: int| 0 <= k < 6 && !p.sub_layer_level_present_flag@[k]
            implies #[trigger] p.sub_layer_level_idc@[k] == Level::L1 by {
            assert(p.sub_layer_level_idc@[k] == sub.levels@[k]);
        }
    }
    p
}

} // verus!
