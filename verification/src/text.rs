//! Text handling: decoding fixed byte fields into strings, trimming NUL
//! padding, and decimal rendering of numbers.
use vstd::prelude::*;
use vstd::utf8::*;
use vstd::string::StringSliceAdditionalSpecFns;

verus! {

/// What `String::from_utf8_lossy` yields for `bytes`: the decoded text, with
/// each invalid UTF-8 sequence replaced by U+FFFD.
pub uninterp spec fn lossy_utf8(bytes: Seq<u8>) -> Seq<char>;

/// Calls `String::from_utf8_lossy` and takes the result as an owned `String`.
/// Claimed: the result is `lossy_utf8` of the bytes, and when the bytes are
/// valid UTF-8 it is exactly their decoding (as the std documentation says:
/// valid input is returned unchanged). What replaces invalid sequences is left
/// to the name.
#[verifier::external_body]
pub fn utf8_lossy(bytes: &[u8]) -> (s: String)
    ensures
        s@ == lossy_utf8(bytes@),
        valid_utf8(bytes@) ==> s@ == decode_utf8(bytes@),
{
    String::from_utf8_lossy(bytes).into_owned()
}

/// The text `String::from_utf8_lossy` produces: the decoding of valid UTF-8,
/// and `lossy_utf8` otherwise.
pub open spec fn lossy_text(bytes: Seq<u8>) -> Seq<char> {
    if valid_utf8(bytes) {
        decode_utf8(bytes)
    } else {
        lossy_utf8(bytes)
    }
}

/// `bytes` cut to at most `n` bytes and padded with zeros to exactly `n`.
pub open spec fn pad_to(bytes: Seq<u8>, n: nat) -> Seq<u8> {
    Seq::new(n, |i: int| if i < bytes.len() { bytes[i] } else { 0u8 })
}

/// `s` with every trailing NUL character removed.
pub open spec fn trim_nul(s: Seq<char>) -> Seq<char>
    decreases s.len(),
{
    if s.len() > 0 && s.last() == '\0' {
        trim_nul(s.drop_last())
    } else {
        s
    }
}

/// A run of `n` NUL characters.
pub open spec fn nuls(n: nat) -> Seq<char> {
    Seq::new(n, |i: int| '\0')
}

/// The characters whose code points are the given ASCII bytes.
pub open spec fn ascii_chars(bytes: Seq<u8>) -> Seq<char> {
    bytes.map_values(|b: u8| b as char)
}

/// True when every byte is below 0x80.
pub open spec fn is_ascii_bytes(bytes: Seq<u8>) -> bool {
    forall|i: int| 0 <= i < bytes.len() ==> #[trigger] bytes[i] < 0x80
}

/// Decimal digits of `n`, most significant first, without leading zeros.
pub open spec fn decimal(n: nat) -> Seq<u8>
    decreases n,
{
    if n < 10 {
        seq![(48 + n) as u8]
    } else {
        decimal(n / 10) + seq![(48 + n % 10) as u8]
    }
}

/// The number a sequence of ASCII decimal digits spells.
pub open spec fn digits_value(ds: Seq<u8>) -> int
    decreases ds.len(),
{
    if ds.len() == 0 {
        0
    } else {
        digits_value(ds.drop_last()) * 10 + (ds.last() - 48)
    }
}

/// `decimal(n)` spells `n` in ASCII digits, without a leading zero unless
/// `n` is 0.
pub proof fn law_decimal_value(n: nat)
    ensures
        digits_value(decimal(n)) == n,
        forall|i: int| 0 <= i < decimal(n).len() ==> 48 <= #[trigger] decimal(n)[i] <= 57,
        decimal(n).len() > 1 ==> decimal(n)[0] != 48,
    decreases n,
{
    lemma_decimal_props(n);
    let d = decimal(n);
    if n >= 10 {
        let m = n / 10;
        law_decimal_value(m);
        assert(d.drop_last() =~= decimal(m));
        assert(d.last() == (48 + n % 10) as u8);
        assert(digits_value(d) == digits_value(decimal(m)) * 10 + n % 10);
        assert(n == m * 10 + n % 10);
        assert(d[0] == decimal(m)[0]);
        if m < 10 {
            assert(decimal(m)[0] == (48 + m) as u8);
        } else {
            lemma_decimal_props(m / 10);
            assert(decimal(m).len() == decimal(m / 10).len() + 1);
        }
    } else {
        assert(d.drop_last() =~= Seq::<u8>::empty());
        assert(digits_value(Seq::<u8>::empty()) == 0);
        assert(d.last() == (48 + n) as u8);
    }
}

pub proof fn lemma_decimal_props(n: nat)
    ensures
        1 <= decimal(n).len(),
        n < 10 ==> decimal(n).len() == 1,
        n < 100 ==> decimal(n).len() <= 2,
        n < 1000 ==> decimal(n).len() <= 3,
        forall|i: int|
            0 <= i < decimal(n).len() ==> 48 <= #[trigger] decimal(n)[i] <= 57,
    decreases n,
{
    if n >= 10 {
        lemma_decimal_props(n / 10);
    }
}

/// Appends the decimal digits of `n` to `out`.
pub fn push_decimal(out: &mut Vec<u8>, n: u32)
    ensures
        final(out)@ == old(out)@ + decimal(n as nat),
    decreases n,
{
    if n >= 10 {
        push_decimal(out, n / 10);
    }
    let d = (n % 10) as u8;
    out.push(48u8 + d);
    assert(final(out)@ =~= old(out)@ + decimal(n as nat));
}

/// Removing trailing NULs ignores any NULs appended after the text.
pub proof fn lemma_trim_nul_append_nuls(p: Seq<char>, m: nat)
    ensures
        trim_nul(p + nuls(m)) == trim_nul(p),
    decreases m,
{
    if m > 0 {
        assert((p + nuls(m)).drop_last() =~= p + nuls((m - 1) as nat));
        lemma_trim_nul_append_nuls(p, (m - 1) as nat);
    } else {
        assert(p + nuls(m) =~= p);
    }
}

/// Text that does not end in NUL, followed by NULs, trims back to itself.
pub proof fn lemma_trim_nul_padded(p: Seq<char>, m: nat)
    requires
        p.len() == 0 || p.last() != '\0',
    ensures
        trim_nul(p + nuls(m)) == p,
{
    lemma_trim_nul_append_nuls(p, m);
}

/// The UTF-8 encoding of a concatenation is the concatenation of encodings.
pub proof fn lemma_encode_utf8_concat(a: Seq<char>, b: Seq<char>)
    ensures
        encode_utf8(a + b) == encode_utf8(a) + encode_utf8(b),
    decreases a.len(),
{
    if a.len() == 0 {
        assert(a + b =~= b);
    } else {
        assert((a + b)[0] == a[0]);
        assert((a + b).drop_first() =~= a.drop_first() + b);
        lemma_encode_utf8_concat(a.drop_first(), b);
        assert(encode_utf8(a + b) =~= encode_utf8(a) + encode_utf8(b));
    }
}

/// The NUL character encodes as a single zero byte.
pub proof fn lemma_encode_nul()
    ensures
        encode_utf8(seq!['\0']) == seq![0u8],
{
    let s = seq!['\0'];
    assert(s[0] as u32 == 0u32);
    assert(leading_byte_width_1(0u32) == 0u8) by (bit_vector);
    assert(encode_scalar(0u32) =~= seq![0u8]);
    assert(s.drop_first() =~= Seq::<char>::empty());
    assert(encode_utf8(s.drop_first()) =~= Seq::<u8>::empty());
    assert(encode_utf8(s) =~= seq![0u8]);
}

/// Zero bytes decode to NUL characters.
pub proof fn lemma_decode_zeros(m: nat)
    ensures
        valid_utf8(Seq::new(m, |i: int| 0u8)),
        decode_utf8(Seq::new(m, |i: int| 0u8)) == nuls(m),
    decreases m,
{
    let z = Seq::new(m, |i: int| 0u8);
    if m > 0 {
        let rest = Seq::new((m - 1) as nat, |i: int| 0u8);
        assert(is_leading_byte_width_1(z[0]));
        assert(length_of_first_scalar(z) == 1);
        assert(pop_first_scalar(z) =~= rest);
        lemma_decode_zeros((m - 1) as nat);
        assert(valid_first_scalar(z)) by {
            assert(z[0] == 0u8);
            assert(codepoint_width_1(0u8) == 0u32) by (bit_vector);
        }
        assert(decode_first_scalar(z) == 0u32) by {
            assert(codepoint_width_1(0u8) == 0u32) by (bit_vector);
        }
        assert((0u32 as char) == '\0');
        assert(decode_utf8(z) =~= nuls(m));
    } else {
        assert(decode_utf8(z) =~= nuls(m));
    }
}

/// ASCII bytes are valid UTF-8 and decode character by character.
pub proof fn lemma_ascii_decode(bytes: Seq<u8>)
    requires
        is_ascii_bytes(bytes),
    ensures
        valid_utf8(bytes),
        decode_utf8(bytes) == ascii_chars(bytes),
        encode_utf8(ascii_chars(bytes)) == bytes,
{
    let cs = ascii_chars(bytes);
    assert(is_ascii_chars(cs)) by {
        assert forall|i: int| 0 <= i < cs.len() implies '\0' <= #[trigger] cs[i] <= '\u{7f}' by {
            assert(bytes[i] < 0x80);
            let b = bytes[i];
            assert((b as char) as u32 == b as u32);
        }
    }
    is_ascii_chars_encode_utf8(cs);
    assert forall|i: int| 0 <= i < cs.len() implies #[trigger] encode_utf8(cs)[i] == bytes[i] by {
        let b = bytes[i];
        assert(cs[i] == b as char);
        assert((b as char) as u8 == b);
    }
    assert(encode_utf8(cs) =~= bytes);
    encode_utf8_valid_utf8(cs);
    encode_utf8_decode_utf8(cs);
}

/// NUL characters encode as zero bytes.
pub proof fn lemma_encode_nuls(m: nat)
    ensures
        encode_utf8(nuls(m)) == Seq::new(m, |i: int| 0u8),
    decreases m,
{
    if m > 0 {
        let rest = nuls((m - 1) as nat);
        assert(nuls(m) =~= seq!['\0'] + rest);
        lemma_encode_utf8_concat(seq!['\0'], rest);
        lemma_encode_nul();
        lemma_encode_nuls((m - 1) as nat);
        assert(encode_utf8(nuls(m)) =~= Seq::new(m, |i: int| 0u8));
    } else {
        assert(encode_utf8(nuls(m)) =~= Seq::new(m, |i: int| 0u8));
    }
}

/// Text that fits in an `n`-byte field and does not end in NUL is recovered
/// from the zero-padded field by lossy decoding and NUL trimming.
pub proof fn lemma_padded_text(c: Seq<char>, n: nat)
    requires
        encode_utf8(c).len() <= n,
        c.len() == 0 || c.last() != '\0',
    ensures
        valid_utf8(pad_to(encode_utf8(c), n)),
        decode_utf8(pad_to(encode_utf8(c), n)) == c + nuls((n - encode_utf8(c).len()) as nat),
        trim_nul(lossy_text(pad_to(encode_utf8(c), n))) == c,
{
    let b = encode_utf8(c);
    let m = (n - b.len()) as nat;
    lemma_encode_utf8_concat(c, nuls(m));
    lemma_encode_nuls(m);
    assert(pad_to(b, n) =~= encode_utf8(c + nuls(m)));
    encode_utf8_valid_utf8(c + nuls(m));
    encode_utf8_decode_utf8(c + nuls(m));
    lemma_trim_nul_padded(c, m);
}

/// Builds a `String` from ASCII bytes.
pub fn string_from_ascii(bytes: &[u8]) -> (s: String)
    requires
        is_ascii_bytes(bytes@),
    ensures
        s@ == ascii_chars(bytes@),
{
    proof {
        lemma_ascii_decode(bytes@);
    }
    utf8_lossy(bytes)
}

/// Returns `s` with all trailing NUL characters removed.
pub fn trim_trailing_nul(s: &str) -> (r: String)
    ensures
        r@ == trim_nul(s@),
{
    let bytes = s.as_bytes();
    let ghost bs = bytes@;
    proof {
        encode_utf8_valid_utf8(s@);
        encode_utf8_decode_utf8(s@);
    }
    let mut k: usize = bytes.len();
    while k > 0 && bytes[k - 1] == 0
        invariant
            k <= bs.len(),
            bytes@ == bs,
            forall|j: int| k <= j < bs.len() ==> bs[j] == 0u8,
        decreases k,
    {
        k = k - 1;
    }
    let ghost n = bs.len();
    proof {
        if k == n {
            is_char_boundary_start_end_of_seq(bs);
        } else {
            assert(!is_continuation_byte(bs[k as int]));
            is_char_boundary_iff_not_is_continuation_byte(bs, k as int);
        }
        decode_utf8_split(bs, k as int);
        valid_utf8_split(bs, k as int);
    }
    let (head, _tail) = s.split_at(k);
    proof {
        let hb = bs.subrange(0, k as int);
        let tb = bs.subrange(k as int, n as int);
        assert(head.spec_bytes() == hb);
        encode_utf8_decode_utf8(head@);
        assert(head@ == decode_utf8(hb));
        let m = (n - k) as nat;
        assert(tb =~= Seq::new(m, |i: int| 0u8));
        lemma_decode_zeros(m);
        assert(s@ == decode_utf8(bs));
        assert(s@ =~= head@ + nuls(m));
        if head@.len() > 0 && head@.last() == '\0' {
            let p = head@.drop_last();
            assert(head@ =~= p + seq!['\0']);
            lemma_encode_utf8_concat(p, seq!['\0']);
            lemma_encode_nul();
            assert(hb.last() == 0u8);
            assert(k > 0);
            assert(hb.last() == bs[k - 1]);
            assert(false);
        }
        lemma_trim_nul_padded(head@, m);
    }
    head.to_owned()
}

} // verus!
