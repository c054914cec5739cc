//! Decoding of the base64 typed arrays that Plotly JSON stores curves in.
use vstd::prelude::*;
use vstd::string::StringSliceAdditionalSpecFns;
use vstd::utf8::encode_utf8;
use crate::text::chars_of;

verus! {

// ---------------------------------------------------------------------------
// Base64
// ---------------------------------------------------------------------------

/// The value of a base64 digit (`A-Z a-z 0-9 + /`); any other byte counts
/// as zero.
pub open spec fn sextet(b: u8) -> int {
    if 0x41 <= b <= 0x5a {
        b - 0x41
    } else if 0x61 <= b <= 0x7a {
        b - 0x61 + 26
    } else if 0x30 <= b <= 0x39 {
        b - 0x30 + 52
    } else if b == 0x2b {
        62
    } else if b == 0x2f {
        63
    } else {
        0
    }
}

/// The digit at position `j` of the text, zero past its end.
pub open spec fn digit_at(text: Seq<u8>, j: int) -> int {
    if 0 <= j < text.len() {
        sextet(text[j])
    } else {
        0
    }
}

/// Byte `k` of the decoding stream: every group of four digits gives three
/// bytes, the 24 bits of the group read from the most significant end.
pub open spec fn stream_byte(text: Seq<u8>, k: int) -> u8 {
    let g = k / 3;
    let e1 = digit_at(text, 4 * g);
    let e2 = digit_at(text, 4 * g + 1);
    let e3 = digit_at(text, 4 * g + 2);
    let e4 = digit_at(text, 4 * g + 3);
    if k % 3 == 0 {
        (e1 * 4 + e2 / 16) as u8
    } else if k % 3 == 1 {
        ((e2 % 16) * 16 + e3 / 4) as u8
    } else {
        ((e3 % 4) * 64 + e4) as u8
    }
}

/// Whether the last byte of the text is a padding `=`, read as the
/// character at the byte length minus one.
pub open spec fn pads_once(n: int, chars: Seq<char>) -> bool {
    n > 0 && chars.len() >= n && chars[n - 1] == '='
}

/// Whether the last two bytes of the text are padding.
pub open spec fn pads_twice(n: int, chars: Seq<char>) -> bool {
    pads_once(n, chars) && n > 1 && chars.len() >= n - 1 && chars[n - 2] == '='
}

/// The number of decoded bytes: three quarters of the byte length of the
/// text, less one per trailing `=`.
pub open spec fn decoded_len(n: int, chars: Seq<char>) -> int {
    (n * 3) / 4 - (if pads_once(n, chars) { 1int } else { 0 }) - (if pads_twice(n, chars) {
        1int
    } else {
        0
    })
}

/// Whether a base64 text can be decoded: its trailing `=` do not outnumber
/// what its length leaves room for.
pub open spec fn base64_decodable(text: Seq<char>) -> bool {
    decoded_len(encode_utf8(text).len() as int, text) >= 0
}

/// The bytes that a base64 text stands for, read from its UTF-8 bytes.
pub open spec fn base64_decoded(text: Seq<char>) -> Seq<u8> {
    Seq::new(
        decoded_len(encode_utf8(text).len() as int, text) as nat,
        |k: int| stream_byte(encode_utf8(text), k),
    )
}

/// [`sextet`] in executable form.
fn sextet_of(b: u8) -> (v: u8)
    ensures
        v == sextet(b),
        v < 64,
{
    if 0x41 <= b && b <= 0x5a {
        b - 0x41
    } else if 0x61 <= b && b <= 0x7a {
        b - 0x61 + 26
    } else if 0x30 <= b && b <= 0x39 {
        b - 0x30 + 52
    } else if b == 0x2b {
        62
    } else if b == 0x2f {
        63
    } else {
        0
    }
}

/// Whether a base64 text can be decoded (see [`base64_decodable`]).
pub fn base64_decodable_text(bdata: &str) -> (b: bool)
    ensures
        b == base64_decodable(bdata@),
{
    let text = bdata.as_bytes();
    let n = text.len();
    let chars = chars_of(bdata);
    let base: usize = (n / 4) * 3 + ((n % 4) * 3) / 4;
    assert(base == (n * 3) / 4);
    let mut pads: usize = 0;
    if n > 0 && chars.len() >= n && chars[n - 1] == '=' {
        pads = 1;
        if n > 1 && chars[n - 2] == '=' {
            pads = 2;
        }
    }
    base >= pads
}

/// Decodes a base64 text into bytes. Digits outside the base64 alphabet
/// count as zero, and a trailing `=` or `==` shortens the result.
pub fn decode_base64(bdata: &str) -> (out: Vec<u8>)
    requires
        base64_decodable(bdata@),
    ensures
        out@ == base64_decoded(bdata@),
{
    let text = bdata.as_bytes();
    let n = text.len();
    let chars = chars_of(bdata);
    let mut buffer_length: usize = (n / 4) * 3 + ((n % 4) * 3) / 4;
    assert(buffer_length == (n * 3) / 4);
    if n > 0 && chars.len() >= n && chars[n - 1] == '=' {
        buffer_length = buffer_length - 1;
        if n > 1 && chars[n - 2] == '=' {
            buffer_length = buffer_length - 1;
        }
    }
    assert(buffer_length == decoded_len(n as int, bdata@));
    let ghost spec_text = text@;
    let mut out: Vec<u8> = Vec::new();
    let groups: usize = n / 4 + if n % 4 != 0 { 1 } else { 0 };
    let mut gi: usize = 0;
    while gi < groups
        invariant
            text@ == spec_text,
            n == text@.len(),
            groups == n / 4 + if n % 4 != 0 { 1int } else { 0 },
            gi <= groups,
            buffer_length <= (n * 3) / 4,
            out@.len() == if 3 * gi < buffer_length { 3 * gi } else { buffer_length as int },
            forall|k: int| 0 <= k < out@.len() ==> #[trigger] out@[k] == stream_byte(spec_text, k),
        decreases groups - gi,
    {
        let i = gi * 4;
        let e1 = sextet_of(text[i]) as u32;
        let e2 = if i + 1 < n {
            sextet_of(text[i + 1]) as u32
        } else {
            0
        };
        let e3 = if i + 2 < n {
            sextet_of(text[i + 2]) as u32
        } else {
            0
        };
        let e4 = if i + 3 < n {
            sextet_of(text[i + 3]) as u32
        } else {
            0
        };
        let ghost g = gi as int;
        assert(e1 == digit_at(spec_text, 4 * g));
        assert(e2 == digit_at(spec_text, 4 * g + 1));
        assert(e3 == digit_at(spec_text, 4 * g + 2));
        assert(e4 == digit_at(spec_text, 4 * g + 3));
        if out.len() < buffer_length {
            assert(out@.len() == 3 * g);
            let b = (e1 * 4 + e2 / 16) as u8;
            assert(b == stream_byte(spec_text, 3 * g));
            out.push(b);
        }
        if out.len() < buffer_length {
            assert(out@.len() == 3 * g + 1);
            let b = ((e2 % 16) * 16 + e3 / 4) as u8;
            assert(b == stream_byte(spec_text, 3 * g + 1));
            out.push(b);
        }
        if out.len() < buffer_length {
            assert(out@.len() == 3 * g + 2);
            let b = ((e3 % 4) * 64 + e4) as u8;
            assert(b == stream_byte(spec_text, 3 * g + 2));
            out.push(b);
        }
        gi = gi + 1;
    }
    assert(out@ =~= base64_decoded(bdata@));
    out
}



// ---------------------------------------------------------------------------
// Base64 encoding, and the decoder as its inverse
// ---------------------------------------------------------------------------

/// The base64 digit of a value below 64.
pub open spec fn b64_digit(v: int) -> char {
    if v < 26 {
        ((0x41 + v) as u8) as char
    } else if v < 52 {
        ((0x61 + v - 26) as u8) as char
    } else if v < 62 {
        ((0x30 + v - 52) as u8) as char
    } else if v == 62 {
        '+'
    } else {
        '/'
    }
}

/// Byte `i` of the data, zero past its end.
pub open spec fn byte_or_zero(data: Seq<u8>, i: int) -> int {
    if 0 <= i < data.len() {
        data[i] as int
    } else {
        0
    }
}

/// Character `r` of the encoding of group `g` (bytes `3g .. 3g+3`) of the
/// data; positions past the end of the data are padded with `=`.
pub open spec fn encoded_char(data: Seq<u8>, g: int, r: int) -> char {
    let b0 = byte_or_zero(data, 3 * g);
    let b1 = byte_or_zero(data, 3 * g + 1);
    let b2 = byte_or_zero(data, 3 * g + 2);
    if r == 0 {
        b64_digit(b0 / 4)
    } else if r == 1 {
        b64_digit((b0 % 4) * 16 + b1 / 16)
    } else if r == 2 {
        if 3 * g + 1 < data.len() {
            b64_digit((b1 % 16) * 4 + b2 / 64)
        } else {
            '='
        }
    } else {
        if 3 * g + 2 < data.len() {
            b64_digit(b2 % 64)
        } else {
            '='
        }
    }
}

/// The standard padded base64 encoding of the data: four characters for
/// each group of three bytes, the last group padded with `=`.
pub open spec fn base64_text(data: Seq<u8>) -> Seq<char> {
    Seq::new(4 * ((data.len() + 2) / 3), |j: int| encoded_char(data, j / 4, j % 4))
}

proof fn lemma_digit_roundtrip(v: int)
    requires
        0 <= v < 64,
    ensures
        sextet(b64_digit(v) as u8) == v,
        b64_digit(v) != '=',
        (b64_digit(v) as u32) < 128,
{
}

proof fn lemma_group_arith(b0: int, b1: int, b2: int)
    requires
        0 <= b0 < 256,
        0 <= b1 < 256,
        0 <= b2 < 256,
    ensures
        (b0 / 4) * 4 + ((b0 % 4) * 16 + b1 / 16) / 16 == b0,
        (((b0 % 4) * 16 + b1 / 16) % 16) * 16 + ((b1 % 16) * 4 + b2 / 64) / 4 == b1,
        (((b1 % 16) * 4 + b2 / 64) % 4) * 64 + b2 % 64 == b2,
        0 <= b0 / 4 < 64,
        0 <= (b0 % 4) * 16 + b1 / 16 < 64,
        0 <= (b1 % 16) * 4 + b2 / 64 < 64,
        0 <= b2 % 64 < 64,
{
}

/// Decoding inverts encoding: the bytes that the standard base64 text of
/// some data stands for are that data, and such a text never makes the
/// decoder's length negative.
pub proof fn lemma_decode_inverts_encode(data: Seq<u8>, chars: Seq<char>)
    requires
        chars == base64_text(data),
    ensures
        base64_decodable(chars),
        base64_decoded(chars) == data,
{
    let len = data.len() as int;
    let groups = (len + 2) / 3;
    let n = 4 * groups;
    assert forall|j: int| 0 <= j < chars.len() implies ('\0' <= #[trigger] chars[j] <= '\u{7f}')
        && (chars[j] == '=' || exists|v: int| 0 <= v < 64 && chars[j] == b64_digit(v)) by {
        let g = j / 4;
        let b0 = byte_or_zero(data, 3 * g);
        let b1 = byte_or_zero(data, 3 * g + 1);
        let b2 = byte_or_zero(data, 3 * g + 2);
        lemma_group_arith(b0, b1, b2);
        lemma_digit_roundtrip(b0 / 4);
        lemma_digit_roundtrip((b0 % 4) * 16 + b1 / 16);
        lemma_digit_roundtrip((b1 % 16) * 4 + b2 / 64);
        lemma_digit_roundtrip(b2 % 64);
    }
    assert(vstd::utf8::is_ascii_chars(chars));
    vstd::utf8::is_ascii_chars_encode_utf8(chars);
    let text = encode_utf8(chars);
    assert(text.len() == n);
    // Padding: the last group holds `len - 3 (groups - 1)` bytes.
    if len > 0 {
        let g = groups - 1;
        assert(chars[n - 1] == encoded_char(data, g, 3));
        assert(chars[n - 2] == encoded_char(data, g, 2));
        let b0 = byte_or_zero(data, 3 * g);
        let b1 = byte_or_zero(data, 3 * g + 1);
        let b2 = byte_or_zero(data, 3 * g + 2);
        lemma_group_arith(b0, b1, b2);
        lemma_digit_roundtrip((b1 % 16) * 4 + b2 / 64);
        lemma_digit_roundtrip(b2 % 64);
        assert(decoded_len(n, chars) == len);
    } else {
        assert(decoded_len(n, chars) == 0);
    }
    let out = base64_decoded(chars);
    assert(out.len() == len);
    assert forall|k: int| 0 <= k < len implies #[trigger] out[k] == data[k] by {
        let g = k / 3;
        let b0 = byte_or_zero(data, 3 * g);
        let b1 = byte_or_zero(data, 3 * g + 1);
        let b2 = byte_or_zero(data, 3 * g + 2);
        lemma_group_arith(b0, b1, b2);
        assert(4 * g + 3 < n);
        lemma_digit_roundtrip(b0 / 4);
        lemma_digit_roundtrip((b0 % 4) * 16 + b1 / 16);
        assert(text[4 * g] == chars[4 * g] as u8);
        assert(text[4 * g + 1] == chars[4 * g + 1] as u8);
        assert(chars[4 * g] == encoded_char(data, g, 0));
        assert(chars[4 * g + 1] == encoded_char(data, g, 1));
        assert(digit_at(text, 4 * g) == b0 / 4);
        assert(digit_at(text, 4 * g + 1) == (b0 % 4) * 16 + b1 / 16);
        if k % 3 >= 1 {
            lemma_digit_roundtrip((b1 % 16) * 4 + b2 / 64);
            assert(text[4 * g + 2] == chars[4 * g + 2] as u8);
            assert(chars[4 * g + 2] == encoded_char(data, g, 2));
            assert(digit_at(text, 4 * g + 2) == (b1 % 16) * 4 + b2 / 64);
        }
        if k % 3 == 2 {
            lemma_digit_roundtrip(b2 % 64);
            assert(text[4 * g + 3] == chars[4 * g + 3] as u8);
            assert(chars[4 * g + 3] == encoded_char(data, g, 3));
            assert(digit_at(text, 4 * g + 3) == b2 % 64);
        }
        assert(byte_or_zero(data, k) == data[k]);
    }
    assert(out =~= data);
}

// ---------------------------------------------------------------------------
// Element types
// ---------------------------------------------------------------------------

/// Element type of a typed array, named as Plotly names it.
#[derive(PartialEq, Eq, Structural, Clone, Copy, Debug)]
pub enum DType {
    /// `f8`: 64-bit floats.
    F8,
    /// `f4`: 32-bit floats.
    F4,
    /// `i4`: signed 32-bit integers.
    I4,
    /// `i2`: signed 16-bit integers.
    I2,
    /// `i1`: signed bytes.
    I1,
    /// `u4`: unsigned 32-bit integers.
    U4,
    /// `u2`: unsigned 16-bit integers.
    U2,
    /// `u1`, `u1c`, and any name not listed: unsigned bytes.
    U1,
}

/// The element type that a dtype name selects.
pub open spec fn dtype_named(name: Seq<char>) -> DType {
    if name == "f8"@ {
        DType::F8
    } else if name == "f4"@ {
        DType::F4
    } else if name == "i4"@ {
        DType::I4
    } else if name == "i2"@ {
        DType::I2
    } else if name == "i1"@ {
        DType::I1
    } else if name == "u4"@ {
        DType::U4
    } else if name == "u2"@ {
        DType::U2
    } else {
        DType::U1
    }
}

/// Reads a dtype name; `u1`, `u1c` and unknown names all read as bytes.
pub fn dtype_from_name(name: &str) -> (d: DType)
    ensures
        d == dtype_named(name@),
{
    if crate::text::str_eq(name, "f8") {
        DType::F8
    } else if crate::text::str_eq(name, "f4") {
        DType::F4
    } else if crate::text::str_eq(name, "i4") {
        DType::I4
    } else if crate::text::str_eq(name, "i2") {
        DType::I2
    } else if crate::text::str_eq(name, "i1") {
        DType::I1
    } else if crate::text::str_eq(name, "u4") {
        DType::U4
    } else if crate::text::str_eq(name, "u2") {
        DType::U2
    } else {
        DType::U1
    }
}

/// The width in bytes of one element.
pub open spec fn dtype_width(d: DType) -> int {
    match d {
        DType::F8 => 8,
        DType::F4 | DType::I4 | DType::U4 => 4,
        DType::I2 | DType::U2 => 2,
        DType::I1 | DType::U1 => 1,
    }
}

/// The dtype names that Plotly writes for typed arrays: a letter for the
/// kind (`f` float, `i` signed, `u` unsigned) and a digit for the width
/// in bytes.
pub open spec fn plotly_dtype_names() -> Set<Seq<char>> {
    set!["f8"@, "f4"@, "i4"@, "i2"@, "i1"@, "u4"@, "u2"@, "u1"@]
}

/// Whether elements of the type are floating-point numbers.
pub open spec fn is_float_dtype(d: DType) -> bool {
    d == DType::F8 || d == DType::F4
}

/// Whether elements of the type are signed integers.
pub open spec fn is_signed_dtype(d: DType) -> bool {
    d == DType::I4 || d == DType::I2 || d == DType::I1
}

/// Each Plotly dtype name selects the element type its letters spell: as
/// many bytes per element as its digit says, a float exactly for `f` and
/// a signed integer exactly for `i`.
pub proof fn lemma_dtype_name_spells_its_type(name: Seq<char>)
    requires
        plotly_dtype_names().contains(name),
    ensures
        name.len() == 2,
        dtype_width(dtype_named(name)) == name[1] as int - '0' as int,
        is_float_dtype(dtype_named(name)) <==> name[0] == 'f',
        is_signed_dtype(dtype_named(name)) <==> name[0] == 'i',
{
    reveal_strlit("f8");
    reveal_strlit("f4");
    reveal_strlit("i4");
    reveal_strlit("i2");
    reveal_strlit("i1");
    reveal_strlit("u4");
    reveal_strlit("u2");
    reveal_strlit("u1");
}

/// `256` to the power `n`.
pub open spec fn pow256(n: nat) -> nat
    decreases n,
{
    if n == 0 {
        1
    } else {
        256 * pow256((n - 1) as nat)
    }
}

/// The unsigned value of bytes read little-endian.
pub open spec fn le_value(s: Seq<u8>) -> nat
    decreases s.len(),
{
    if s.len() == 0 {
        0
    } else {
        s[0] as nat + 256 * le_value(s.drop_first())
    }
}

/// The value read two's-complement from `w` little-endian bytes.
pub open spec fn signed_value(v: nat, w: nat) -> int {
    if v >= pow256(w) / 2 {
        v - pow256(w)
    } else {
        v as int
    }
}

/// The bytes of element `i` of a typed array whose elements are `w` wide.
pub open spec fn element_bytes(bytes: Seq<u8>, i: int, w: int) -> Seq<u8> {
    bytes.subrange(i * w, i * w + w)
}

proof fn lemma_le_value_bound(s: Seq<u8>)
    ensures
        le_value(s) < pow256(s.len()),
    decreases s.len(),
{
    if s.len() > 0 {
        lemma_le_value_bound(s.drop_first());
        let r = le_value(s.drop_first());
        let p = pow256((s.len() - 1) as nat);
        assert(s[0] as nat + 256 * r < 256 * p) by (nonlinear_arith)
            requires
                r < p,
                s[0] < 256,
        ;
    }
}

/// The little-endian value of `w` bytes starting at `start`.
fn le_word(bytes: &Vec<u8>, start: usize, w: usize) -> (v: u64)
    requires
        1 <= w <= 8,
        start + w <= bytes.len(),
    ensures
        v == le_value(bytes@.subrange(start as int, start + w)),
{
    let mut v: u64 = 0;
    let mut j: usize = w;
    proof {
        assert(bytes@.subrange(start + w, start + w).len() == 0);
    }
    while j > 0
        invariant
            0 <= j <= w <= 8,
            start + w <= bytes.len(),
            v == le_value(bytes@.subrange(start + j, start + w)),
        decreases j,
    {
        let ghost tail = bytes@.subrange(start + j, start + w);
        proof {
            lemma_le_value_bound(tail);
            assert(pow256(tail.len()) <= pow256(7)) by {
                lemma_pow256_mono(tail.len(), 7);
            }
            lemma_pow256_values();
        }
        let b = bytes[start + j - 1];
        v = v * 256 + b as u64;
        j = j - 1;
        proof {
            let s2 = bytes@.subrange(start + j, start + w);
            assert(s2.drop_first() =~= tail);
            assert(s2[0] == b);
        }
    }
    v
}

proof fn lemma_pow256_values()
    ensures
        pow256(1) == 0x100,
        pow256(2) == 0x1_0000,
        pow256(3) == 0x100_0000,
        pow256(4) == 0x1_0000_0000,
        pow256(5) == 0x100_0000_0000,
        pow256(6) == 0x1_0000_0000_0000,
        pow256(7) == 0x100_0000_0000_0000,
        pow256(8) == 0x1_0000_0000_0000_0000,
{
    assert(pow256(0) == 1);
    assert(pow256(1) == 0x100);
    assert(pow256(2) == 0x1_0000);
    assert(pow256(3) == 0x100_0000);
    assert(pow256(4) == 0x1_0000_0000);
    assert(pow256(5) == 0x100_0000_0000);
    assert(pow256(6) == 0x1_0000_0000_0000);
    assert(pow256(7) == 0x100_0000_0000_0000);
    assert(pow256(8) == 0x1_0000_0000_0000_0000);
}

proof fn lemma_pow256_mono(a: nat, b: nat)
    requires
        a <= b,
    ensures
        pow256(a) <= pow256(b),
    decreases b,
{
    if a < b {
        lemma_pow256_mono(a, (b - 1) as nat);
    }
}

/// Decoded elements of a typed array: the bit patterns of floats, which
/// only a float conversion can read, or the values of integers.
pub enum TypedValues {
    /// `f8` elements as their IEEE-754 bit patterns.
    Float64Bits(Vec<u64>),
    /// `f4` elements as their IEEE-754 bit patterns.
    Float32Bits(Vec<u32>),
    /// Integer elements, signed ones sign-extended.
    Integers(Vec<i64>),
}

/// Element `i` of the integer reading of a typed array.
pub open spec fn integer_element(bytes: Seq<u8>, d: DType, i: int) -> int {
    let w = dtype_width(d);
    let v = le_value(element_bytes(bytes, i, w));
    match d {
        DType::I4 | DType::I2 | DType::I1 => signed_value(v, w as nat),
        _ => v as int,
    }
}

/// What a typed array of element type `d` holds: one element per whole
/// `w`-byte chunk, a shorter remainder being ignored.
pub open spec fn typed_values_match(bytes: Seq<u8>, d: DType, t: TypedValues) -> bool {
    let w = dtype_width(d);
    let count = bytes.len() as int / w;
    match t {
        TypedValues::Float64Bits(v) => d == DType::F8 && v@.len() == count && forall|i: int|
            0 <= i < count ==> #[trigger] v@[i] == le_value(element_bytes(bytes, i, w)),
        TypedValues::Float32Bits(v) => d == DType::F4 && v@.len() == count && forall|i: int|
            0 <= i < count ==> #[trigger] v@[i] == le_value(element_bytes(bytes, i, w)),
        TypedValues::Integers(v) => d != DType::F8 && d != DType::F4 && v@.len() == count
            && forall|i: int| 0 <= i < count ==> #[trigger] v@[i] == integer_element(bytes, d, i),
    }
}

/// [`dtype_width`] in executable form.
pub fn width_of(d: DType) -> (w: usize)
    ensures
        w == dtype_width(d),
{
    match d {
        DType::F8 => 8,
        DType::F4 | DType::I4 | DType::U4 => 4,
        DType::I2 | DType::U2 => 2,
        DType::I1 | DType::U1 => 1,
    }
}

/// Splits decoded bytes into elements of type `d`, little-endian.
pub fn typed_values(bytes: &Vec<u8>, d: DType) -> (t: TypedValues)
    ensures
        typed_values_match(bytes@, d, t),
{
    let w = width_of(d);
    let count = bytes.len() / w;
    let ghost bs = bytes@;
    match d {
        DType::F8 => {
            let mut v: Vec<u64> = Vec::new();
            let mut i: usize = 0;
            while i < count
                invariant
                    w == 8,
                    count == bytes.len() / w,
                    0 <= i <= count,
                    v@.len() == i,
                    forall|k: int|
                        0 <= k < i ==> #[trigger] v@[k] == le_value(element_bytes(bs, k, 8)),
                    bs == bytes@,
                decreases count - i,
            {
                assert(i * 8 + 8 <= bytes.len()) by (nonlinear_arith)
                    requires
                        i < count,
                        count == bytes.len() / 8,
                ;
                let x = le_word(bytes, i * 8, 8);
                v.push(x);
                i = i + 1;
            }
            TypedValues::Float64Bits(v)
        },
        DType::F4 => {
            let mut v: Vec<u32> = Vec::new();
            let mut i: usize = 0;
            while i < count
                invariant
                    w == 4,
                    count == bytes.len() / w,
                    0 <= i <= count,
                    v@.len() == i,
                    forall|k: int|
                        0 <= k < i ==> #[trigger] v@[k] == le_value(element_bytes(bs, k, 4)),
                    bs == bytes@,
                decreases count - i,
            {
                assert(i * 4 + 4 <= bytes.len()) by (nonlinear_arith)
                    requires
                        i < count,
                        count == bytes.len() / 4,
                ;
                let x = le_word(bytes, i * 4, 4);
                proof {
                    lemma_le_value_bound(bytes@.subrange(i * 4, i * 4 + 4));
                    lemma_pow256_values();
                }
                v.push(x as u32);
                i = i + 1;
            }
            TypedValues::Float32Bits(v)
        },
        _ => {
            let mut v: Vec<i64> = Vec::new();
            let mut i: usize = 0;
            while i < count
                invariant
                    d != DType::F8 && d != DType::F4,
                    w == dtype_width(d),
                    1 <= w <= 4,
                    count == bytes.len() / w,
                    0 <= i <= count,
                    v@.len() == i,
                    forall|k: int|
                        0 <= k < i ==> #[trigger] v@[k] == integer_element(bs, d, k),
                    bs == bytes@,
                decreases count - i,
            {
                assert(i * w + w <= bytes.len()) by (nonlinear_arith)
                    requires
                        i < count,
                        count == bytes.len() / w,
                        w >= 1,
                ;
                let x = le_word(bytes, i * w, w);
                let ghost eb = bytes@.subrange(i * w, i * w + w);
                proof {
                    lemma_le_value_bound(eb);
                    lemma_pow256_mono(w as nat, 4);
                    lemma_pow256_values();
                }
                let value: i64 = match d {
                    DType::I4 => if x >= 0x8000_0000 { x as i64 - 0x1_0000_0000 } else { x as i64 },
                    DType::I2 => if x >= 0x8000 { x as i64 - 0x1_0000 } else { x as i64 },
                    DType::I1 => if x >= 0x80 { x as i64 - 0x100 } else { x as i64 },
                    _ => x as i64,
                };
                v.push(value);
                i = i + 1;
            }
            TypedValues::Integers(v)
        },
    }
}

// ---------------------------------------------------------------------------
// Encoding, and what decoding gives back of it
// ---------------------------------------------------------------------------

/// The `w` bytes of `v`, least significant first.
pub open spec fn le_bytes(v: nat, w: nat) -> Seq<u8>
    decreases w,
{
    if w == 0 {
        Seq::empty()
    } else {
        seq![(v % 256) as u8] + le_bytes(v / 256, (w - 1) as nat)
    }
}

/// Whether `x` can be stored in an element of type `d`: a signed integer
/// of the width, an unsigned one, or (for floats) a bit pattern.
pub open spec fn fits_dtype(x: int, d: DType) -> bool {
    let p = pow256(dtype_width(d) as nat);
    match d {
        DType::I4 | DType::I2 | DType::I1 => -(p / 2) <= x < p / 2,
        _ => 0 <= x < p,
    }
}

/// The stored form of `x`: two's complement for a negative integer.
pub open spec fn stored_word(x: int, d: DType) -> nat {
    if x < 0 {
        (x + pow256(dtype_width(d) as nat)) as nat
    } else {
        x as nat
    }
}

/// The little-endian typed-array bytes of the elements `vals` of type `d`.
pub open spec fn encode_elements(vals: Seq<int>, d: DType) -> Seq<u8>
    decreases vals.len(),
{
    if vals.len() == 0 {
        Seq::empty()
    } else {
        encode_elements(vals.drop_last(), d) + le_bytes(
            stored_word(vals.last(), d),
            dtype_width(d) as nat,
        )
    }
}

proof fn lemma_le_bytes_read_back(v: nat, w: nat)
    requires
        v < pow256(w),
    ensures
        le_bytes(v, w).len() == w,
        le_value(le_bytes(v, w)) == v,
    decreases w,
{
    if w > 0 {
        let p = pow256((w - 1) as nat);
        assert(v / 256 < p) by (nonlinear_arith)
            requires
                v < 256 * p,
        ;
        lemma_le_bytes_read_back(v / 256, (w - 1) as nat);
        let b = le_bytes(v, w);
        assert(b.drop_first() =~= le_bytes(v / 256, (w - 1) as nat));
        assert(v == v % 256 + 256 * (v / 256)) by (nonlinear_arith);
    }
}

proof fn lemma_encode_elements_shape(vals: Seq<int>, d: DType)
    ensures
        encode_elements(vals, d).len() == vals.len() * dtype_width(d),
        forall|i: int|
            0 <= i < vals.len() ==> #[trigger] element_bytes(encode_elements(vals, d), i, dtype_width(d))
                == le_bytes(stored_word(vals[i], d), dtype_width(d) as nat),
    decreases vals.len(),
{
    let w = dtype_width(d);
    if vals.len() > 0 {
        let init = vals.drop_last();
        let last = le_bytes(stored_word(vals.last(), d), w as nat);
        lemma_encode_elements_shape(init, d);
        lemma_le_bytes_len(stored_word(vals.last(), d), w as nat);
        let head = encode_elements(init, d);
        let all = encode_elements(vals, d);
        assert(all == head + last);
        assert(init.len() * w + w == vals.len() * w) by (nonlinear_arith)
            requires
                init.len() == vals.len() - 1,
        ;
        assert forall|i: int| 0 <= i < vals.len() implies #[trigger] element_bytes(all, i, w)
            == le_bytes(stored_word(vals[i], d), w as nat) by {
            if i < init.len() {
                assert(i * w + w <= init.len() * w) by (nonlinear_arith)
                    requires
                        i < init.len(),
                        w >= 1,
                ;
                assert(0 <= i * w) by (nonlinear_arith)
                    requires
                        0 <= i,
                        w >= 1,
                ;
                assert(element_bytes(all, i, w) =~= element_bytes(head, i, w));
                assert(vals[i] == init[i]);
            } else {
                assert(i * w == init.len() * w);
                assert(element_bytes(all, i, w) =~= last);
            }
        }
    }
}

proof fn lemma_le_bytes_len(v: nat, w: nat)
    ensures
        le_bytes(v, w).len() == w,
    decreases w,
{
    if w > 0 {
        lemma_le_bytes_len(v / 256, (w - 1) as nat);
    }
}

/// Typed arrays read back what was written: the standard base64 text of
/// the little-endian encoding of elements that fit their type decodes to
/// those bytes, one element per `w` bytes, and the elements read from it
/// are the elements written (floats as their bit patterns, signed integers
/// through two's complement).
pub proof fn lemma_typed_array_round_trip(vals: Seq<int>, d: DType)
    requires
        forall|i: int| 0 <= i < vals.len() ==> fits_dtype(#[trigger] vals[i], d),
    ensures
        ({
            let bytes = encode_elements(vals, d);
            let text = base64_text(bytes);
            let w = dtype_width(d);
            &&& base64_decodable(text)
            &&& base64_decoded(text) == bytes
            &&& bytes.len() as int / w == vals.len()
            &&& forall|i: int|
                0 <= i < vals.len() ==> match d {
                    DType::F8 | DType::F4 => le_value(element_bytes(bytes, i, w)) == vals[i],
                    _ => integer_element(bytes, d, i) == vals[i],
                }
        }),
{
    let bytes = encode_elements(vals, d);
    let w = dtype_width(d);
    lemma_decode_inverts_encode(bytes, base64_text(bytes));
    lemma_encode_elements_shape(vals, d);
    assert(bytes.len() as int / w == vals.len()) by (nonlinear_arith)
        requires
            bytes.len() == vals.len() * w,
            w >= 1,
    ;
    lemma_pow256_values();
    assert forall|i: int| 0 <= i < vals.len() implies match d {
        DType::F8 | DType::F4 => le_value(element_bytes(bytes, i, w)) == vals[i],
        _ => integer_element(bytes, d, i) == vals[i],
    } by {
        let x = vals[i];
        assert(fits_dtype(x, d));
        let u = stored_word(x, d);
        assert(u < pow256(w as nat));
        lemma_le_bytes_read_back(u, w as nat);
        assert(element_bytes(bytes, i, w) == le_bytes(u, w as nat));
    }
}

} // verus!
