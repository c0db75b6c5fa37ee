//! The synthesizer of the AV1 sequence header OBU.

use crate::bits::{code_u, lemma_code_u_len, pack, with_trailing};
use crate::codec::av1::leb128::{leb128, write_leb128};
use crate::codec::av1::tables::{
    color_config_syntax, color_head_syntax, color_tail_syntax, seq_filter_syntax, seq_frame_syntax,
    seq_general_syntax, seq_inter_syntax, seq_screen_syntax, sequence_header_syntax,
};
use crate::codec::av1::types::{
    ColorConfig, ColorPrimaries, MatrixCoefficients, ObuType, Profile, SequenceHeaderObu,
    TransferCharacteristics,
};
use crate::codec::nalu_writer::{NaluWriter, NaluWriterError};
use crate::syntax::{group_append, lemma_written_element, lemma_written_none, syntax, Syntax};
use vstd::prelude::*;

verus! {

broadcast use group_append;

/// The structures that an OBU is synthesized from.
pub trait ObuStruct {

}

impl ObuStruct for SequenceHeaderObu {

}

pub type SynthesizerResult<T> = Result<T, NaluWriterError>;

/// The first byte of an OBU of type `obu_type` that tells its size (5.3.2).
pub open spec fn obu_header(obu_type: ObuType) -> u8 {
    (8 * obu_type.code() + 2) as u8
}

/// The payload of an OBU: the bits of a table and `trailing_bits()`.
pub open spec fn obu_payload(table: Syntax) -> Seq<u8> {
    pack(with_trailing(table.written()))
}

/// The OBU of type `obu_type` whose payload has the bits of a table.
pub open spec fn obu_bytes(obu_type: ObuType, table: Syntax) -> Seq<u8> {
    seq![obu_header(obu_type)] + leb128(obu_payload(table).len()) + obu_payload(table)
}

/// A helper to output typed OBUs.
pub struct Synthesizer<'n, N: ObuStruct> {
    writer: NaluWriter,
    obu: &'n N,
    error: Option<NaluWriterError>,
    trace: Ghost<Syntax>,
}

impl<'n, N: ObuStruct> Synthesizer<'n, N> {
    /// The writer holds what can be written of the elements, and there is an error once one
    /// cannot.
    spec fn inv(&self) -> bool {
        &&& self.writer.inv()
        &&& self.writer.head().len() == 0
        &&& !self.writer.ep_enabled()
        &&& self.writer.bits() == self.trace@.written()
        &&& self.error == match self.trace@.failure() {
            None => None,
            Some(_) => Some(NaluWriterError::InvalidBitCount),
        }
    }

    /// Whether `self` is `before` with the elements of `table` handed over.
    spec fn follows(&self, before: &Self, table: Syntax) -> bool {
        &&& self.inv()
        &&& self.trace@ == before.trace@.part(table)
        &&& self.obu == before.obu
    }

    fn start(obu: &'n N) -> (s: Self)
        ensures
            s.inv(),
            s.trace@ == syntax(),
            s.obu == obu,
    {
        proof {
            lemma_written_none();
        }
        Synthesizer { writer: NaluWriter::new(false), obu, error: None, trace: Ghost(syntax()) }
    }

    /// Writes the `bits` low bits of `value`.
    fn f(&mut self, bits: usize, value: u32)
        requires
            old(self).inv(),
        ensures
            final(self).follows(old(self), syntax().u(bits as int, value as int)),
    {
        proof {
            lemma_written_element(self.trace@, crate::syntax::u(bits as int, value as int));
        }
        if self.error.is_none() {
            if let Err(e) = self.writer.write_f(bits, value) {
                self.error = Some(e);
            }
        }
        self.trace = Ghost(self.trace@.u(bits as int, value as int));
    }

    /// Writes a flag.
    fn flag(&mut self, value: bool)
        requires
            old(self).inv(),
        ensures
            final(self).follows(old(self), syntax().flag(value)),
    {
        self.f(1, if value { 1 } else { 0 })
    }

    /// `trailing_bits()`, and the bytes.
    fn into_payload(self) -> (out: Vec<u8>)
        requires
            self.inv(),
        ensures
            out@ == obu_payload(self.trace@),
    {
        let mut writer = self.writer;
        let ghost bits = writer.bits();
        writer.write_bit(true);
        let ghost mut k: nat = 0;
        let ghost n = bits.len() + 1;
        proof {
            assert(writer.bits() =~= bits.push(true) + code_u(0, 0));
        }
        while !writer.aligned()
            invariant
                writer.inv(),
                writer.head().len() == 0,
                !writer.ep_enabled(),
                n == bits.len() + 1,
                writer.bits() == bits.push(true) + code_u(k, 0),
                k <= (8 - n % 8) % 8,
            ensures
                writer.bits().len() % 8 == 0,
            decreases 8 - k,
        {
            proof {
                lemma_code_u_len(k, 0);
                assert(code_u(k + 1, 0) == code_u(k, 0).push(false));
                assert((bits.push(true) + code_u(k, 0)).push(false) =~= bits.push(true) + code_u(k + 1, 0));
            }
            writer.write_bit(false);
            proof {
                k = k + 1;
            }
        }
        proof {
            lemma_code_u_len(k, 0);
            assert(writer.bits() == with_trailing(bits));
        }
        let ghost head = writer.head();
        let out = writer.into_bytes();
        proof {
            assert(head + pack(with_trailing(bits)) =~= pack(with_trailing(bits)));
        }
        out
    }
}

impl<'n> Synthesizer<'n, SequenceHeaderObu> {
    /// Synthesizes a complete sequence header OBU (header, size and payload) and appends it
    /// to `writer`. Nothing is appended where a field is longer than 32 bits.
    pub fn synthesize(
        obu: &'n SequenceHeaderObu,
        writer: &mut Vec<u8>,
    ) -> (r: SynthesizerResult<()>)
        ensures
            match r {
                Ok(_) => {
                    &&& sequence_header_syntax(*obu).failure() is None
                    &&& final(writer)@ == old(writer)@ + obu_bytes(
                        ObuType::SequenceHeader,
                        sequence_header_syntax(*obu),
                    )
                },
                Err(e) => {
                    &&& sequence_header_syntax(*obu).failure() is Some
                    &&& e == NaluWriterError::InvalidBitCount
                    &&& final(writer)@ == old(writer)@
                },
            },
    {
        let mut s = Self::start(obu);
        s.sequence_header_obu();
        proof {
            reveal(syntax);
            reveal(Syntax::part);
            let t = sequence_header_syntax(*obu);
            assert(syntax().part(t) =~= t);
        }
        if let Some(e) = s.error {
            return Err(e);
        }
        let mut payload = s.into_payload();
        let ghost data = payload@;
        let ghost before = writer@;
        writer.push(10);
        write_leb128(writer, payload.len() as u64);
        writer.append(&mut payload);
        proof {
            assert(writer@ =~= before + (seq![10u8] + leb128(data.len()) + data));
        }
        Ok(())
    }

    /// `sequence_header_obu()` (5.5.1).
    fn sequence_header_obu(&mut self)
        requires
            old(self).inv(),
        ensures
            final(self).follows(old(self), sequence_header_syntax(*old(self).obu)),
    {
        proof {
            reveal(sequence_header_syntax);
            reveal(color_config_syntax);
        }
        let s = self.obu;
        self.general(s);
        self.frame(s);
        self.tools(s);
        self.color_head(&s.color_config, s.seq_profile);
        self.color_tail(&s.color_config, s.seq_profile);
        self.flag(s.film_grain_params_present);
    }

    fn general(&mut self, s: &SequenceHeaderObu)
        requires
            old(self).inv(),
        ensures
            final(self).follows(old(self), seq_general_syntax(*s)),
    {
        proof {
            reveal(seq_general_syntax);
        }
        self.f(3, s.seq_profile.to_u8() as u32);
        self.flag(s.still_picture);
        // reduced_still_picture_header, timing_info_present_flag,
        // initial_display_delay_present_flag
        self.flag(false);
        self.flag(false);
        self.flag(false);
        // operating_points_cnt_minus_1
        self.f(5, 0);
        self.f(12, s.operating_point_idc as u32);
        self.f(5, s.seq_level_idx as u32);
        if s.seq_level_idx > 7 {
            self.flag(s.seq_tier);
        }
    }

    fn frame(&mut self, s: &SequenceHeaderObu)
        requires
            old(self).inv(),
        ensures
            final(self).follows(old(self), seq_frame_syntax(*s)),
    {
        proof {
            reveal(seq_frame_syntax);
        }
        self.f(4, s.frame_width_bits_minus_1 as u32);
        self.f(4, s.frame_height_bits_minus_1 as u32);
        self.f(s.frame_width_bits_minus_1 as usize + 1, s.max_frame_width_minus_1 as u32);
        self.f(s.frame_height_bits_minus_1 as usize + 1, s.max_frame_height_minus_1 as u32);
        // frame_id_numbers_present_flag
        self.flag(false);
        self.flag(s.use_128x128_superblock);
        self.flag(s.enable_filter_intra);
        self.flag(s.enable_intra_edge_filter);
    }

    fn tools(&mut self, s: &SequenceHeaderObu)
        requires
            old(self).inv(),
        ensures
            final(self).follows(
                old(self),
                seq_inter_syntax(*s).part(seq_screen_syntax(*s)).part(seq_filter_syntax(*s)),
            ),
    {
        proof {
            reveal(seq_inter_syntax);
            reveal(seq_filter_syntax);
        }
        self.flag(s.enable_interintra_compound);
        self.flag(s.enable_masked_compound);
        self.flag(s.enable_warped_motion);
        self.flag(s.enable_dual_filter);
        self.flag(s.enable_order_hint);
        if s.enable_order_hint {
            self.flag(s.enable_jnt_comp);
            self.flag(s.enable_ref_frame_mvs);
        }
        self.screen(s);
        self.flag(s.enable_superres);
        self.flag(s.enable_cdef);
        self.flag(s.enable_restoration);
    }

    fn screen(&mut self, s: &SequenceHeaderObu)
        requires
            old(self).inv(),
        ensures
            final(self).follows(old(self), seq_screen_syntax(*s)),
    {
        proof {
            reveal(seq_screen_syntax);
        }
        self.flag(s.seq_choose_screen_content_tools);
        if !s.seq_choose_screen_content_tools {
            self.flag(s.seq_force_screen_content_tools);
        }
        if s.seq_choose_screen_content_tools || s.seq_force_screen_content_tools {
            self.flag(s.seq_choose_integer_mv);
            if !s.seq_choose_integer_mv {
                self.flag(s.seq_force_integer_mv);
            }
        }
        if s.enable_order_hint {
            self.f(3, s.order_hint_bits_minus_1 as u32);
        }
    }

    fn color_head(&mut self, c: &ColorConfig, profile: Profile)
        requires
            old(self).inv(),
        ensures
            final(self).follows(old(self), color_head_syntax(*c, profile)),
    {
        proof {
            reveal(color_head_syntax);
        }
        self.flag(c.high_bitdepth);
        if profile == Profile::Profile2 && c.high_bitdepth {
            self.flag(c.twelve_bit);
        }
        if profile != Profile::Profile1 {
            self.flag(c.mono_chrome);
        }
        self.flag(c.color_description_present_flag);
        if c.color_description_present_flag {
            self.f(8, c.color_primaries.to_u8() as u32);
            self.f(8, c.transfer_characteristics.to_u8() as u32);
            self.f(8, c.matrix_coefficients.to_u8() as u32);
        }
    }

    fn color_tail(&mut self, c: &ColorConfig, profile: Profile)
        requires
            old(self).inv(),
        ensures
            final(self).follows(old(self), color_tail_syntax(*c, profile)),
    {
        proof {
            reveal(color_tail_syntax);
        }
        let srgb = c.color_primaries == ColorPrimaries::Bt709
            && c.transfer_characteristics == TransferCharacteristics::Srgb
            && c.matrix_coefficients == MatrixCoefficients::Identity;
        if c.mono_chrome {
            self.flag(c.color_range);
        } else if srgb {
            self.flag(c.separate_uv_delta_q);
        } else {
            self.flag(c.color_range);
            if profile == Profile::Profile2 && c.twelve_bit {
                self.flag(c.subsampling_x);
                if c.subsampling_x {
                    self.flag(c.subsampling_y);
                }
            }
            if c.subsampling_x && c.subsampling_y {
                self.f(2, c.chroma_sample_position as u32);
            }
            self.flag(c.separate_uv_delta_q);
        }
    }
}

} // verus!
