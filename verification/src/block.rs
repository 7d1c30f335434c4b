//! The ISO 9564 Format-0 PIN block: validation of PIN and PAN, the two
//! half-block builders, and their XOR combination.

use crate::chars::{
    all_digits, all_hex_digits, hex_char, hex_char_of, is_digit, is_hex_digit, str_is_all_digits,
};
use crate::error::{CipherError, CipherResult};
use crate::hex_codec::{
    byte_of_hex_pair, hex_decode, hex_decode_spec, hex_encode_upper, hex_encode_upper_spec,
    xor_bytes, xor_zip,
};
use crate::strutil::{fill_left_with_char, push_char};
use vstd::prelude::*;

verus! {

/// Width of each half-block and of the result, in hex characters.
pub const BLOCK_LENGTH: usize = 16;

/// Filler policy for the unused nibbles of the PIN half-block.
#[derive(Clone, Copy, Debug)]
pub enum PinBlockFiller {
    Zero,
    F,
}

/// The character a filler policy stands for.
pub open spec fn filler_char(f: PinBlockFiller) -> char {
    match f {
        PinBlockFiller::Zero => '0',
        PinBlockFiller::F => 'F',
    }
}

/// A well-formed PIN: decimal digits only, 4 to 12 of them.
pub open spec fn valid_pin(s: Seq<char>) -> bool {
    all_digits(s) && 4 <= s.len() <= 12
}

/// A well-formed PAN: decimal digits only, 16 to 19 of them.
pub open spec fn valid_pan(s: Seq<char>) -> bool {
    all_digits(s) && 16 <= s.len() <= 19
}

/// Decimal rendering of a PIN length in [4, 12]: one digit up to nine,
/// two digits past it.
pub open spec fn pin_len_repr(n: nat) -> Seq<char>
    recommends
        4 <= n <= 12,
{
    if n <= 9 {
        seq![hex_char(n as u8)]
    } else {
        seq!['1', hex_char((n - 10) as u8)]
    }
}

/// The PIN half-block: the format nibble `0`, the PIN length, the PIN
/// digits, and filler out to 16 characters.
pub open spec fn block1_spec(pin: Seq<char>, f: PinBlockFiller) -> Seq<char>
    recommends
        valid_pin(pin),
{
    let prefix = seq!['0'] + pin_len_repr(pin.len()) + pin;
    prefix + Seq::new((16 - prefix.len()) as nat, |i: int| filler_char(f))
}

/// The PAN half-block: four `0` characters, then the twelve PAN digits
/// that immediately precede the check digit.
pub open spec fn block2_spec(pan: Seq<char>) -> Seq<char>
    recommends
        13 <= pan.len(),
{
    seq!['0', '0', '0', '0'] + pan.subrange(pan.len() - 13, pan.len() - 1)
}

/// The Format-0 PIN block of a validated PIN and PAN: the two half-blocks
/// decoded from hex, XORed byte by byte, and rendered as uppercase hex.
pub open spec fn pin_block_spec(pin: Seq<char>, pan: Seq<char>, f: PinBlockFiller) -> Seq<char>
    recommends
        valid_pin(pin),
        valid_pan(pan),
{
    hex_encode_upper_spec(
        xor_bytes(hex_decode_spec(block1_spec(pin, f)), hex_decode_spec(block2_spec(pan))),
    )
}

/// The PIN half-block of a valid PIN is 16 hex characters.
pub proof fn lemma_block1_wf(pin: Seq<char>, f: PinBlockFiller)
    requires
        valid_pin(pin),
    ensures
        block1_spec(pin, f).len() == 16,
        all_hex_digits(block1_spec(pin, f)),
{
    let prefix = seq!['0'] + pin_len_repr(pin.len()) + pin;
    let b = block1_spec(pin, f);
    assert(prefix.len() <= 15);
    assert forall|i: int| 0 <= i < b.len() implies is_hex_digit(#[trigger] b[i]) by {
        let reprlen = pin_len_repr(pin.len()).len() as int;
        if i == 0 {
            assert(b[i] == '0');
        } else if i < 1 + reprlen {
            if pin.len() <= 9 {
                crate::chars::lemma_hex_char_val(pin.len() as u8);
                assert(b[i] == hex_char(pin.len() as u8));
            } else if i == 1 {
                assert(b[i] == '1');
            } else {
                crate::chars::lemma_hex_char_val((pin.len() - 10) as u8);
                assert(b[i] == hex_char((pin.len() - 10) as u8));
            }
        } else if i < prefix.len() {
            assert(b[i] == pin[i - 1 - reprlen]);
            assert(is_digit(pin[i - 1 - reprlen]));
        } else {
            assert(b[i] == filler_char(f));
        }
    }
}

/// The PAN half-block of a valid PAN is 16 decimal-digit characters.
pub proof fn lemma_block2_wf(pan: Seq<char>)
    requires
        valid_pan(pan),
    ensures
        block2_spec(pan).len() == 16,
        all_digits(block2_spec(pan)),
        all_hex_digits(block2_spec(pan)),
{
    let b = block2_spec(pan);
    assert forall|i: int| 0 <= i < b.len() implies is_digit(#[trigger] b[i]) by {
        if i < 4 {
            assert(b[i] == '0');
        } else {
            assert(b[i] == pan[pan.len() - 13 + (i - 4)]);
        }
    }
}

/// Build the PIN half-block of a validated PIN: format nibble, length,
/// digits, then filler appended out to 16 characters.
pub fn build_pin_block_1(pin: String, filler: PinBlockFiller) -> (r: CipherResult<String>)
    requires
        valid_pin(pin@),
    ensures
        r matches Ok(b) && b@ == block1_spec(pin@, filler),
        r matches Ok(b) ==> b@.len() == BLOCK_LENGTH,
{
    let mut block1 = String::new();
    push_char(&mut block1, '0');
    let n = pin.as_str().unicode_len();
    if n <= 9 {
        push_char(&mut block1, hex_char_of(n as u8));
    } else {
        push_char(&mut block1, '1');
        push_char(&mut block1, hex_char_of((n - 10) as u8));
    }
    block1.append(pin.as_str());
    assert(block1@ =~= seq!['0'] + pin_len_repr(pin@.len()) + pin@);

    let filler_ch = match filler {
        PinBlockFiller::Zero => '0',
        PinBlockFiller::F => 'F',
    };
    let built = block1.as_str().unicode_len();
    let pad = match fill_left_with_char(String::new(), filler_ch, BLOCK_LENGTH - built) {
        Ok(p) => p,
        Err(e) => {
            return Err(e);
        },
    };
    block1.append(pad.as_str());
    proof {
        lemma_block1_wf(pin@, filler);
        assert(block1@ =~= block1_spec(pin@, filler));
    }
    Ok(block1)
}

/// Build the PAN half-block of a validated PAN: the twelve digits before
/// the check digit, prefixed with four zeros.
pub fn build_pin_block_2(pan: String) -> (r: CipherResult<String>)
    requires
        valid_pan(pan@),
    ensures
        r matches Ok(b) && b@ == block2_spec(pan@),
        r matches Ok(b) ==> b@.len() == BLOCK_LENGTH,
{
    let len = pan.as_str().unicode_len();
    let window = pan.as_str().substring_char(len - 13, len - 1);
    let mut block2 = String::from_str("0000");
    proof {
        reveal_strlit("0000");
    }
    block2.append(window);
    proof {
        lemma_block2_wf(pan@);
        assert(block2@ =~= block2_spec(pan@));
    }
    Ok(block2)
}

/// The computation is deterministic: on one valid PIN, PAN and filler,
/// any two results the contract of `calculate_pin_block` admits coincide.
pub proof fn lemma_pin_block_deterministic(
    pin: Seq<char>,
    pan: Seq<char>,
    f: PinBlockFiller,
    r1: Seq<char>,
    r2: Seq<char>,
)
    requires
        valid_pin(pin),
        valid_pan(pan),
        r1 == pin_block_spec(pin, pan, f),
        r2 == pin_block_spec(pin, pan, f),
    ensures
        r1 == r2,
{
}

/// For one valid PIN and PAN the two filler policies give different PIN
/// blocks: a valid PIN leaves at least the last block-1 nibble to the
/// filler, and that nibble survives the XOR into the result.
pub proof fn lemma_filler_changes_result(pin: Seq<char>, pan: Seq<char>)
    requires
        valid_pin(pin),
        valid_pan(pan),
    ensures
        pin_block_spec(pin, pan, PinBlockFiller::Zero) != pin_block_spec(
            pin,
            pan,
            PinBlockFiller::F,
        ),
{
    lemma_block1_wf(pin, PinBlockFiller::Zero);
    lemma_block1_wf(pin, PinBlockFiller::F);
    lemma_block2_wf(pan);
    let bz = block1_spec(pin, PinBlockFiller::Zero);
    let bf = block1_spec(pin, PinBlockFiller::F);
    let b2 = block2_spec(pan);
    let dz = hex_decode_spec(bz);
    let df = hex_decode_spec(bf);
    let d2 = hex_decode_spec(b2);

    // The last character of block 1 is the filler, so byte 7 of the two
    // decodes differs in its low nibble: 0 against 15.
    let prefix = seq!['0'] + pin_len_repr(pin.len()) + pin;
    assert(prefix.len() <= 15);
    assert(bz[15] == '0');
    assert(bf[15] == 'F');
    assert(dz[7] == byte_of_hex_pair(bz[14], bz[15]));
    assert(df[7] == byte_of_hex_pair(bf[14], bf[15]));
    let hz = crate::chars::hex_digit_val(bz[14]);
    let hf = crate::chars::hex_digit_val(bf[14]);
    assert(hz < 16 && hf < 16);
    assert(dz[7] == (hz * 16) as u8);
    assert(df[7] == (hf * 16 + 15) as u8);
    assert(hz * 16 != hf * 16 + 15);
    assert(dz[7] != df[7]);

    // XOR with the same block-2 byte keeps them apart.
    let az = dz[7];
    let af = df[7];
    let p2 = d2[7];
    assert(az ^ p2 != af ^ p2) by (bit_vector)
        requires
            az != af,
    ;

    // So the rendered blocks differ at character 14 or 15.
    let xz = xor_bytes(dz, d2)[7];
    let xf = xor_bytes(df, d2)[7];
    assert(xz == az ^ p2 && xf == af ^ p2);
    let rz = pin_block_spec(pin, pan, PinBlockFiller::Zero);
    let rf = pin_block_spec(pin, pan, PinBlockFiller::F);
    assert(rz[14] == hex_char(xz / 16) && rz[15] == hex_char(xz % 16));
    assert(rf[14] == hex_char(xf / 16) && rf[15] == hex_char(xf % 16));
    if rz == rf {
        crate::chars::lemma_hex_char_val(xz / 16);
        crate::chars::lemma_hex_char_val(xz % 16);
        crate::chars::lemma_hex_char_val(xf / 16);
        crate::chars::lemma_hex_char_val(xf % 16);
        assert(xz / 16 == xf / 16 && xz % 16 == xf % 16);
        assert(xz == xf);
        assert(false);
    }
}

/// Compute the Format-0 PIN block of a PIN and a PAN under the chosen
/// filler policy. Exactly the well-formed inputs succeed: a PIN off its
/// rules is rejected first, then a PAN off its own, and a valid pair
/// always yields the 16-character block that `pin_block_spec` states.
pub fn calculate_pin_block(pin: String, pan: String, filler: PinBlockFiller) -> (r: CipherResult<
    String,
>)
    ensures
        r is Ok <==> valid_pin(pin@) && valid_pan(pan@),
        r matches Ok(block) ==> block@ == pin_block_spec(pin@, pan@, filler) && block@.len()
            == BLOCK_LENGTH,
        !all_digits(pin@) ==> (r matches Err(e) && e is InvalidPin),
        all_digits(pin@) && !(4 <= pin@.len() <= 12) ==> (r matches Err(e) && e is InvalidPin),
        valid_pin(pin@) && !all_digits(pan@) ==> (r matches Err(e) && e is IncorrectPan),
        valid_pin(pin@) && all_digits(pan@) && !(16 <= pan@.len() <= 19) ==> (r matches Err(e)
            && e is IncorrectPan),
{
    if !str_is_all_digits(pin.as_str()) {
        return Err(CipherError::InvalidPin(String::from_str("Invalid digit in PIN")));
    }
    let pin_len = pin.as_str().unicode_len();
    if pin_len < 4 || pin_len > 12 {
        return Err(
            CipherError::InvalidPin(
                String::from_str("PIN length cannot be smaller than 4 or longer than 12"),
            ),
        );
    }

    if !str_is_all_digits(pan.as_str()) {
        return Err(CipherError::IncorrectPan(String::from_str("Incorrect digit found in PAN")));
    }
    let pan_len = pan.as_str().unicode_len();
    if pan_len < 16 || pan_len > 19 {
        return Err(
            CipherError::IncorrectPan(
                String::from_str("PAN length cannot be greater than 19 or smaller than 16"),
            ),
        );
    }

    let ghost pin_view = pin@;
    let ghost pan_view = pan@;

    let block1 = match build_pin_block_1(pin, filler) {
        Ok(b) => b,
        Err(e) => {
            return Err(e);
        },
    };
    let block2 = match build_pin_block_2(pan) {
        Ok(b) => b,
        Err(e) => {
            return Err(e);
        },
    };

    proof {
        lemma_block1_wf(pin_view, filler);
        lemma_block2_wf(pan_view);
    }

    if block1.as_str().unicode_len() != block2.as_str().unicode_len() {
        return Err(
            CipherError::InternalError(
                String::from_str("Invalid length found between block 1 and 2"),
            ),
        );
    }

    let bytes1 = match hex_decode(block1.as_str()) {
        Ok(v) => v,
        Err(message) => {
            return Err(CipherError::ParsingError(message));
        },
    };
    let bytes2 = match hex_decode(block2.as_str()) {
        Ok(v) => v,
        Err(message) => {
            return Err(CipherError::ParsingError(message));
        },
    };

    let xored = xor_zip(&bytes1, &bytes2);
    let pin_block = hex_encode_upper(&xored);
    Ok(pin_block)
}

} // verus!
