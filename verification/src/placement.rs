use vstd::prelude::*;
use vstd::string::StrSliceExecFns;

use crate::number::{
    decimal, decimal_reads_back, decimal_text, is_digit, lemma_decimal_digits, parse_unsigned,
    parse_unsigned_in,
};
use crate::activity::CreateActivity;
use crate::text::{
    chars_of, is_whitespace, is_word, lemma_words_of_word, lemma_words_prepend_whitespace,
    lemma_words_push_whitespace, lemma_words_word_space, word_bounds, words, words_are_words,
};

verus! {

/// A pixel placement read from the text of a note: a leading word, the coordinates and the
/// colour index.
#[derive(Debug, Clone)]
pub struct Fucky {
    pub string: String,
    pub x: u16,
    pub y: u16,
    pub color: u8,
}

/// Why the text of a note is not a pixel placement.
#[derive(Debug, Clone, Copy, PartialEq, Eq, Structural)]
pub enum FuckyParseError {
    /// The text does not hold exactly four whitespace-separated words.
    WrongNumberOfArgs,
    /// The second word is not an unsigned 16-bit number.
    InvalidVal1,
    /// The third word is not an unsigned 16-bit number.
    InvalidVal2,
    /// The fourth word is not an unsigned 8-bit number.
    InvalidVal3,
    /// Never produced by `parse_fucky`.
    InvalidVal4,
}

/// What the text `t` of a note reads as: its four words, the last three read as numbers,
/// or the first reason why it is not a placement.
pub open spec fn placement_of(t: Seq<char>) -> Result<(Seq<char>, u16, u16, u8), FuckyParseError> {
    let w = words(t);
    if w.len() != 4 {
        Err(FuckyParseError::WrongNumberOfArgs)
    } else {
        match parse_unsigned(w[1], 0xffff) {
            None => Err(FuckyParseError::InvalidVal1),
            Some(x) => match parse_unsigned(w[2], 0xffff) {
                None => Err(FuckyParseError::InvalidVal2),
                Some(y) => match parse_unsigned(w[3], 0xff) {
                    None => Err(FuckyParseError::InvalidVal3),
                    Some(c) => Ok((w[0], x as u16, y as u16, c as u8)),
                },
            },
        }
    }
}

/// The view of a parse result, for comparison with `placement_of`.
pub open spec fn placement_view(r: Result<Fucky, FuckyParseError>) -> Result<
    (Seq<char>, u16, u16, u8),
    FuckyParseError,
> {
    match r {
        Ok(f) => Ok((f.string@, f.x, f.y, f.color)),
        Err(e) => Err(e),
    }
}

/// Reads a placement from the text of a note: exactly four words separated by whitespace,
/// the first kept as it is, then x and y as unsigned 16-bit numbers and the colour index as
/// an unsigned 8-bit number.
pub fn parse_fucky(data: &str) -> (r: Result<Fucky, FuckyParseError>)
    ensures
        placement_view(r) == placement_of(data@),
        words(data@).len() != 4 ==> r == Err::<Fucky, _>(FuckyParseError::WrongNumberOfArgs),
        r is Ok ==> words(data@).len() == 4,
        r matches Ok(f) ==> f.string@ == words(data@)[0],
{
    let cs = chars_of(data);
    let bounds = word_bounds(&cs);
    proof {
        assert(cs@ == data@);
    }
    if bounds.len() != 4 {
        return Err(FuckyParseError::WrongNumberOfArgs);
    }
    let ghost w = words(data@);
    let (s0, e0) = bounds[0];
    let (s1, e1) = bounds[1];
    let (s2, e2) = bounds[2];
    let (s3, e3) = bounds[3];
    proof {
        assert(cs@.subrange(s0 as int, e0 as int) == w[0]);
        assert(cs@.subrange(s1 as int, e1 as int) == w[1]);
        assert(cs@.subrange(s2 as int, e2 as int) == w[2]);
        assert(cs@.subrange(s3 as int, e3 as int) == w[3]);
    }
    let string = data.substring_char(s0, e0).to_owned();
    let x: u32 = match parse_unsigned_in(&cs, s1, e1, 0xffff) {
        Some(v) => v,
        None => {
            return Err(FuckyParseError::InvalidVal1);
        },
    };
    let y: u32 = match parse_unsigned_in(&cs, s2, e2, 0xffff) {
        Some(v) => v,
        None => {
            return Err(FuckyParseError::InvalidVal2);
        },
    };
    let color: u32 = match parse_unsigned_in(&cs, s3, e3, 0xff) {
        Some(v) => v,
        None => {
            return Err(FuckyParseError::InvalidVal3);
        },
    };
    Ok(Fucky { string, x: x as u16, y: y as u16, color: color as u8 })
}

/// Whitespace before or after the text of a note does not change what it reads as.
pub proof fn placement_ignores_surrounding_whitespace(t: Seq<char>, c: char)
    requires
        is_whitespace(c),
    ensures
        placement_of(seq![c] + t) == placement_of(t),
        placement_of(t.push(c)) == placement_of(t),
{
    lemma_words_prepend_whitespace(t, c);
    lemma_words_push_whitespace(t, c);
}

/// A note is a placement only if it holds exactly four words: with any other number of
/// words it is refused for its word count, whatever the words are.
pub proof fn placement_needs_four_words(t: Seq<char>)
    ensures
        words(t).len() != 4 ==> placement_of(t) == Err::<(Seq<char>, u16, u16, u8), _>(
            FuckyParseError::WrongNumberOfArgs,
        ),
        placement_of(t) is Ok ==> words(t).len() == 4,
        placement_of(t) matches Ok((w, x, y, c)) ==> {
            &&& w == words(t)[0]
            &&& parse_unsigned(words(t)[1], 0xffff) == Some(x as nat)
            &&& parse_unsigned(words(t)[2], 0xffff) == Some(y as nat)
            &&& parse_unsigned(words(t)[3], 0xff) == Some(c as nat)
        },
{
}

/// A note of four words is refused for the first of x, y and the colour index that does not
/// read as a number in its range, and is accepted when all three do.
pub proof fn placement_refusal_names_first_bad_word(t: Seq<char>)
    requires
        words(t).len() == 4,
    ensures
        parse_unsigned(words(t)[1], 0xffff) is None ==> placement_of(t) == Err::<
            (Seq<char>, u16, u16, u8),
            _,
        >(FuckyParseError::InvalidVal1),
        parse_unsigned(words(t)[1], 0xffff) is Some && parse_unsigned(words(t)[2], 0xffff) is None
            ==> placement_of(t) == Err::<(Seq<char>, u16, u16, u8), _>(
            FuckyParseError::InvalidVal2,
        ),
        parse_unsigned(words(t)[1], 0xffff) is Some && parse_unsigned(words(t)[2], 0xffff) is Some
            && parse_unsigned(words(t)[3], 0xff) is None ==> placement_of(t) == Err::<
            (Seq<char>, u16, u16, u8),
            _,
        >(FuckyParseError::InvalidVal3),
        parse_unsigned(words(t)[1], 0xffff) is Some && parse_unsigned(words(t)[2], 0xffff) is Some
            && parse_unsigned(words(t)[3], 0xff) is Some ==> placement_of(t) is Ok,
        placement_of(t) != Err::<(Seq<char>, u16, u16, u8), _>(FuckyParseError::InvalidVal4),
{
}

/// The word that a placement keeps is nonempty and holds no whitespace.
pub proof fn placement_word_is_a_word(t: Seq<char>)
    ensures
        placement_of(t) matches Ok((w, _, _, _)) ==> is_word(w),
{
    words_are_words(t);
    if words(t).len() == 4 {
        assert(is_word(words(t)[0]));
    }
}

/// The text of a placement: the word, x, y and the colour index in decimal, separated by
/// single spaces.
pub open spec fn placement_text(word: Seq<char>, x: u16, y: u16, color: u8) -> Seq<char> {
    word + seq![' '] + decimal(x as nat) + seq![' '] + decimal(y as nat) + seq![' '] + decimal(
        color as nat,
    )
}

/// Decimal text is a word.
proof fn lemma_decimal_is_word(n: nat)
    ensures
        is_word(decimal(n)),
{
    lemma_decimal_digits(n);
    let d = decimal(n);
    assert forall|i: int| 0 <= i < d.len() implies !is_whitespace(#[trigger] d[i]) by {
        assert(is_digit(d[i]));
    }
}

/// A placement written out as a word and three numbers in range, separated by spaces, reads
/// back as that word and those numbers.
pub proof fn placement_reads_back(word: Seq<char>, x: u16, y: u16, color: u8)
    requires
        is_word(word),
    ensures
        placement_of(placement_text(word, x, y, color)) == Ok::<_, FuckyParseError>(
            (word, x, y, color),
        ),
{
    let dx = decimal(x as nat);
    let dy = decimal(y as nat);
    let dc = decimal(color as nat);
    lemma_decimal_is_word(x as nat);
    lemma_decimal_is_word(y as nat);
    lemma_decimal_is_word(color as nat);
    let tail2 = dy + seq![' '] + dc;
    let tail1 = dx + seq![' '] + tail2;
    assert(placement_text(word, x, y, color) =~= word + seq![' '] + tail1);
    lemma_words_of_word(dc);
    lemma_words_word_space(dy, dc);
    lemma_words_word_space(dx, tail2);
    lemma_words_word_space(word, tail1);
    let w = words(placement_text(word, x, y, color));
    assert(w =~= seq![word, dx, dy, dc]);
    decimal_reads_back(x as nat, 0xffff);
    decimal_reads_back(y as nat, 0xffff);
    decimal_reads_back(color as nat, 0xff);
}

/// The message that a refusal is shown with.
pub open spec fn error_message(e: FuckyParseError) -> Seq<char> {
    match e {
        FuckyParseError::WrongNumberOfArgs => "Incorrect Number Of args"@,
        FuckyParseError::InvalidVal1 => "somehow you managed to break the leading string >~<"@,
        FuckyParseError::InvalidVal2 => "X value is invalid"@,
        FuckyParseError::InvalidVal3 => "Y value is invalid"@,
        FuckyParseError::InvalidVal4 => "Color value is invalid"@,
    }
}

impl FuckyParseError {
    /// The message that the refusal is shown with.
    pub fn to_string(&self) -> (r: String)
        ensures
            r@ == error_message(*self),
    {
        match self {
            FuckyParseError::WrongNumberOfArgs => "Incorrect Number Of args".to_owned(),
            FuckyParseError::InvalidVal1 => "somehow you managed to break the leading string >~<".to_owned(),
            FuckyParseError::InvalidVal2 => "X value is invalid".to_owned(),
            FuckyParseError::InvalidVal3 => "Y value is invalid".to_owned(),
            FuckyParseError::InvalidVal4 => "Color value is invalid".to_owned(),
        }
    }
}

/// A placed pixel as it is stored.
#[derive(Debug, Clone)]
pub struct Pixel {
    pub id: i32,
    pub x: i32,
    pub y: i32,
    pub color: i32,
    pub user: i32,
}

/// The 32 bits of a position: x in the upper half, y in the lower half.
pub open spec fn position_bits(x: u16, y: u16) -> int {
    x * 0x1_0000 + y
}

/// The stored id of the pixel at (x, y): its position bits read as a signed 32-bit number.
pub open spec fn pixel_id(x: u16, y: u16) -> int {
    if x < 0x8000 {
        position_bits(x, y)
    } else {
        position_bits(x, y) - 0x1_0000_0000
    }
}

/// The row stored for a placement, placed by the user with the id 1.
pub open spec fn pixel_of(x: u16, y: u16, color: u8) -> Pixel {
    Pixel { id: pixel_id(x, y) as i32, x: x as i32, y: y as i32, color: color as i32, user: 1 }
}

/// The position bits of (x, y).
fn position_id(x: u16, y: u16) -> (id: u32)
    ensures
        id == position_bits(x, y),
        id >> 16 == x as u32,
        id & 0xffff == y as u32,
{
    let mut id: u32 = x as u32;
    id = id << 16;
    id = id | y as u32;
    let xx: u32 = x as u32;
    let yy: u32 = y as u32;
    assert(xx < 0x1_0000 && yy < 0x1_0000 ==> ((xx << 16) | yy) >> 16 == xx && ((xx << 16) | yy)
        & 0xffff == yy && ((xx << 16) | yy) == xx * 0x1_0000 + yy) by (bit_vector);
    id
}

/// The position bits hold x in their upper half and y in their lower half: x is what they
/// hold above 0x1_0000, y what is left below it.
pub proof fn position_bits_halves(x: u16, y: u16)
    ensures
        0 <= position_bits(x, y) < 0x1_0000_0000,
        position_bits(x, y) / 0x1_0000 == x,
        position_bits(x, y) % 0x1_0000 == y,
{
    lemma_halves(x as int, y as int);
}

proof fn lemma_halves(x: int, y: int)
    requires
        0 <= x < 0x1_0000,
        0 <= y < 0x1_0000,
    ensures
        (x * 0x1_0000 + y) / 0x1_0000 == x,
        (x * 0x1_0000 + y) % 0x1_0000 == y,
{
    vstd::arithmetic::div_mod::lemma_fundamental_div_mod_converse(x * 0x1_0000 + y, 0x1_0000, x, y);
}

/// The id stored for (x, y), read back as 32 bits, holds x in its upper half and y in its
/// lower half.
pub proof fn pixel_id_halves(x: u16, y: u16)
    ensures
        ((pixel_id(x, y) as i32) as u32) >> 16 == x as u32,
        ((pixel_id(x, y) as i32) as u32) & 0xffff == y as u32,
{
    let xx: u32 = x as u32;
    let yy: u32 = y as u32;
    let b: u32 = (xx * 0x1_0000 + yy) as u32;
    assert(b == position_bits(x, y));
    assert(((b as i32) as u32) >> 16 == xx && ((b as i32) as u32) & 0xffff == yy) by (bit_vector)
        requires
            xx < 0x1_0000,
            yy < 0x1_0000,
            b == xx * 0x1_0000 + yy,
    ;
    assert(b < 0x8000_0000 ==> (b as i32) as int == b as int) by (bit_vector);
    assert(b >= 0x8000_0000 ==> (b as i32) as int == b as int - 0x1_0000_0000) by (bit_vector);
    assert(pixel_id(x, y) == (b as i32) as int);
    assert(pixel_id(x, y) as i32 == b as i32);
}

/// The row stored for a placement keeps its x, y and colour index as they are (the colour
/// in 0..=255), is placed by the user 1, and has an id whose upper half is x and whose lower
/// half is y.
pub proof fn stored_row_keeps_placement(x: u16, y: u16, color: u8)
    ensures
        pixel_of(x, y, color).x as int == x as int,
        pixel_of(x, y, color).y as int == y as int,
        pixel_of(x, y, color).color as int == color as int,
        0 <= pixel_of(x, y, color).color <= 255,
        pixel_of(x, y, color).user == 1,
        (pixel_of(x, y, color).id as u32) >> 16 == x as u32,
        (pixel_of(x, y, color).id as u32) & 0xffff == y as u32,
{
    pixel_id_halves(x, y);
}

/// Pixels at different positions are stored under different ids, and where `xy_to_id` is
/// defined, the stored id is the one it gives.
pub proof fn pixel_ids_identify_positions(x1: u16, y1: u16, x2: u16, y2: u16)
    ensures
        pixel_id(x1, y1) == pixel_id(x2, y2) ==> x1 == x2 && y1 == y2,
        x1 < 0x8000 ==> pixel_id(x1, y1) == position_bits(x1, y1),
        i32::MIN <= pixel_id(x1, y1) <= i32::MAX,
{
}

/// The id of the position (x, y), for x below 0x8000; above it the id does not fit in an
/// `i32`.
pub fn xy_to_id(x: u16, y: u16) -> (id: i32)
    requires
        x < 0x8000,
    ensures
        id == position_bits(x, y),
        id as int == x * 0x1_0000 + y,
        (id as u32) >> 16 == x as u32,
        (id as u32) & 0xffff == y as u32,
{
    let bits: u32 = position_id(x, y);
    assert(bits < 0x8000_0000 ==> (bits as i32) as int == bits as int && ((bits as i32) as u32) == bits) by (bit_vector);
    bits as i32
}

/// Always (1, 2): a placeholder that reads no position from the id.
pub fn id_to_xy(id: i32) -> (r: (u16, u16))
    ensures
        r == (1u16, 2u16),
{
    (1, 2)
}

impl Pixel {
    /// Reads the placement in the note of a create activity and makes the row to store for it.
    pub fn new_place(activity: CreateActivity) -> (r: Result<(Pixel, Fucky), FuckyParseError>)
        ensures
            match r {
                Ok((p, f)) => {
                    &&& placement_of(activity.object.content@) == Ok::<_, FuckyParseError>((f.string@, f.x, f.y, f.color))
                    &&& p == pixel_of(f.x, f.y, f.color)
                    &&& p.x == f.x as i32
                    &&& p.y == f.y as i32
                    &&& p.color == f.color as i32
                    &&& 0 <= p.color <= 255
                    &&& p.user == 1
                    &&& (p.id as u32) >> 16 == f.x as u32
                    &&& (p.id as u32) & 0xffff == f.y as u32
                },
                Err(e) => placement_of(activity.object.content@) == Err::<(Seq<char>, u16, u16, u8), _>(e),
            },
    {
        let data = match parse_fucky(activity.object.content.as_str()) {
            Ok(d) => d,
            Err(e) => {
                return Err(e);
            },
        };
        let bits: u32 = position_id(data.x, data.y);
        assert(bits < 0x8000_0000 ==> (bits as i32) as int == bits as int) by (bit_vector);
        assert(bits >= 0x8000_0000 ==> (bits as i32) as int == bits as int - 0x1_0000_0000)
            by (bit_vector);
        proof {
            stored_row_keeps_placement(data.x, data.y, data.color);
        }
        let p = Pixel {
            id: bits as i32,
            x: data.x as i32,
            y: data.y as i32,
            color: data.color as i32,
            user: 1,
        };
        Ok((p, data))
    }
}

/// The reply to a note: where the pixel went, or why the note was refused.
pub open spec fn reply_text(r: Result<(Seq<char>, u16, u16, u8), FuckyParseError>) -> Seq<char> {
    match r {
        Ok((_, x, y, c)) => "placed with x:"@ + decimal(x as nat) + ", y:"@ + decimal(y as nat)
            + ", color:"@ + decimal(c as nat),
        Err(e) => "unable to parse err: "@ + error_message(e),
    }
}

/// The reply to a placement written out as a word and three numbers names those numbers.
pub proof fn reply_names_placed_pixel(word: Seq<char>, x: u16, y: u16, color: u8)
    requires
        is_word(word),
    ensures
        reply_text(placement_of(placement_text(word, x, y, color))) == "placed with x:"@ + decimal(
            x as nat,
        ) + ", y:"@ + decimal(y as nat) + ", color:"@ + decimal(color as nat),
{
    placement_reads_back(word, x, y, color);
}

/// The reply that the inbox sends for a placement or a refusal.
pub fn inbox_reply(r: &Result<Fucky, FuckyParseError>) -> (t: String)
    ensures
        t@ == reply_text(placement_view(*r)),
{
    match r {
        Ok(f) => {
            let mut t = "placed with x:".to_owned();
            t.append(decimal_text(f.x as u32).as_str());
            t.append(", y:");
            t.append(decimal_text(f.y as u32).as_str());
            t.append(", color:");
            t.append(decimal_text(f.color as u32).as_str());
            t
        },
        Err(e) => {
            let mut t = "unable to parse err: ".to_owned();
            t.append(e.to_string().as_str());
            t
        },
    }
}

} // verus!
