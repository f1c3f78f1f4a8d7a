//! Cache keys: the canonical text of a request, hashed and written in hexadecimal.

use vstd::prelude::*;
use vstd::string::StringExecFns;
use vstd::string::StringSliceAdditionalSpecFns;
use crate::decimal::{
    decimal_text, is_digit, digit_char, lemma_decimal_text_digits, lemma_decimal_text_injective,
    push_decimal,
};
use crate::types::{ComputePointRequest, S3Config};

verus! {

/// The number of characters of a hashed key, without its prefix.
pub const KEY_DIGITS: usize = 128;

/// Whether `text` is free of the comma that separates the fields of a canonical text.
pub open spec fn comma_free(text: Seq<char>) -> bool {
    forall|i: int| 0 <= i < text.len() ==> #[trigger] text[i] != ','
}

/// The canonical text of a request: its fields in a fixed order, each behind its label,
/// the numbers in shortest decimal form and the coordinates as the caller wrote them.
pub open spec fn canonical_text(r: ComputePointRequest) -> Seq<char> {
    "x="@ + r.c.real.value@ + ",y="@ + r.c.imag.value@ + ",x_prec="@ + decimal_text(
        r.c.real.prec as nat,
    ) + ",y_prec="@ + decimal_text(r.c.imag.prec as nat) + ",iterations="@ + decimal_text(
        r.iterations as nat,
    )
}

/// The SHA3-512 digest of `data`.
pub uninterp spec fn sha3_512_digest(data: Seq<u8>) -> Seq<u8>;

/// The character that writes the hexadecimal digit `d`, for `d` below sixteen.
pub open spec fn hex_digit(d: nat) -> char {
    if d < 10 {
        digit_char(d)
    } else if d == 10 {
        'a'
    } else if d == 11 {
        'b'
    } else if d == 12 {
        'c'
    } else if d == 13 {
        'd'
    } else if d == 14 {
        'e'
    } else {
        'f'
    }
}

/// Lower-case hexadecimal text: two digits for each byte, the high one first.
pub open spec fn hex_text(bytes: Seq<u8>) -> Seq<char>
    decreases bytes.len(),
{
    if bytes.len() == 0 {
        Seq::empty()
    } else {
        hex_text(bytes.drop_last()).push(hex_digit(bytes.last() as nat / 16)).push(
            hex_digit(bytes.last() as nat % 16),
        )
    }
}

/// The key under which the result of `r` is kept, without a prefix.
pub open spec fn hashed_key(r: ComputePointRequest) -> Seq<char> {
    hex_text(sha3_512_digest(vstd::utf8::encode_utf8(canonical_text(r))))
}

/// The full key under which the result of `r` is kept.
pub open spec fn cache_key(prefix: Seq<char>, r: ComputePointRequest) -> Seq<char> {
    prefix + hashed_key(r)
}

/// Calls `Sha3_512::new`, `update` and `finalize` of the sha3 crate on `data`. The
/// digest is taken to be a function of the data alone, 64 bytes long.
#[verifier::external_body]
fn sha3_512(data: &[u8]) -> (digest: Vec<u8>)
    ensures
        digest@ == sha3_512_digest(data@),
        digest@.len() == 64,
{
    let mut hasher = <sha3::Sha3_512 as sha3::Digest>::new();
    sha3::Digest::update(&mut hasher, data);
    sha3::Digest::finalize(hasher).to_vec()
}

/// Calls `hex::encode` on `bytes`: two lower-case hexadecimal digits for each byte, in
/// order, the high four bits first.
#[verifier::external_body]
fn hex_encode(bytes: &[u8]) -> (text: String)
    ensures
        text@ == hex_text(bytes@),
{
    hex::encode(bytes)
}

/// Hexadecimal text is twice as long as the bytes it writes.
pub proof fn lemma_hex_text_len(bytes: Seq<u8>)
    ensures
        hex_text(bytes).len() == 2 * bytes.len(),
    decreases bytes.len(),
{
    if bytes.len() > 0 {
        lemma_hex_text_len(bytes.drop_last());
    }
}

/// Different byte strings have different hexadecimal texts.
pub proof fn lemma_hex_text_injective(a: Seq<u8>, b: Seq<u8>)
    requires
        hex_text(a) == hex_text(b),
    ensures
        a == b,
    decreases a.len(),
{
    lemma_hex_text_len(a);
    lemma_hex_text_len(b);
    if a.len() > 0 {
        let pa = hex_text(a.drop_last());
        let pb = hex_text(b.drop_last());
        let ha = hex_digit(a.last() as nat / 16);
        let la = hex_digit(a.last() as nat % 16);
        let hb = hex_digit(b.last() as nat / 16);
        let lb = hex_digit(b.last() as nat % 16);
        assert(pa.push(ha).push(la).last() == la);
        assert(pb.push(hb).push(lb).last() == lb);
        assert(pa.push(ha).push(la).drop_last() == pa.push(ha));
        assert(pb.push(hb).push(lb).drop_last() == pb.push(hb));
        assert(pa.push(ha).last() == ha);
        assert(pb.push(hb).last() == hb);
        assert(pa.push(ha).drop_last() == pa);
        assert(pb.push(hb).drop_last() == pb);
        assert(a.last() as nat / 16 == b.last() as nat / 16);
        assert(a.last() as nat % 16 == b.last() as nat % 16);
        assert(a.last() == b.last());
        lemma_hex_text_injective(a.drop_last(), b.drop_last());
        assert(a =~= a.drop_last().push(a.last()));
        assert(b =~= b.drop_last().push(b.last()));
    } else {
        assert(a =~= b);
    }
}

/// Where two texts agree, each made of a comma-free head, a comma and a tail, the
/// heads agree and the tails agree.
proof fn lemma_split_at_comma(a1: Seq<char>, r1: Seq<char>, a2: Seq<char>, r2: Seq<char>)
    requires
        comma_free(a1),
        comma_free(a2),
        a1 + seq![','] + r1 == a2 + seq![','] + r2,
    ensures
        a1 == a2,
        r1 == r2,
{
    let s1 = a1 + seq![','] + r1;
    let s2 = a2 + seq![','] + r2;
    if a1.len() < a2.len() {
        assert(s1[a1.len() as int] == ',');
        assert(s2[a1.len() as int] == a2[a1.len() as int]);
    }
    if a2.len() < a1.len() {
        assert(s2[a2.len() as int] == ',');
        assert(s1[a2.len() as int] == a1[a2.len() as int]);
    }
    assert(a1 =~= s1.subrange(0, a1.len() as int));
    assert(a2 =~= s2.subrange(0, a2.len() as int));
    assert(r1 =~= s1.subrange(a1.len() as int + 1, s1.len() as int));
    assert(r2 =~= s2.subrange(a2.len() as int + 1, s2.len() as int));
}

/// Where two texts agree that begin with the same label, what follows the label agrees.
proof fn lemma_strip_label(label: Seq<char>, f1: Seq<char>, f2: Seq<char>)
    requires
        label + f1 == label + f2,
    ensures
        f1 == f2,
{
    assert(f1 =~= (label + f1).subrange(label.len() as int, (label + f1).len() as int));
    assert(f2 =~= (label + f2).subrange(label.len() as int, (label + f2).len() as int));
}

/// A decimal text holds no comma.
proof fn lemma_decimal_comma_free(n: nat)
    ensures
        comma_free(decimal_text(n)),
{
    lemma_decimal_text_digits(n);
    assert forall|i: int| 0 <= i < decimal_text(n).len() implies #[trigger] decimal_text(n)[i]
        != ',' by {
        assert(is_digit(decimal_text(n)[i]));
    }
}

/// The canonical text as five labelled fields with a comma between each two.
proof fn lemma_canonical_fields(r: ComputePointRequest)
    ensures
        canonical_text(r) == ("x="@ + r.c.real.value@) + seq![','] + (("y="@ + r.c.imag.value@)
            + seq![','] + (("x_prec="@ + decimal_text(r.c.real.prec as nat)) + seq![','] + ((
        "y_prec="@ + decimal_text(r.c.imag.prec as nat)) + seq![','] + ("iterations="@
            + decimal_text(r.iterations as nat))))),
        comma_free("x="@),
        comma_free("y="@),
        comma_free("x_prec="@),
        comma_free("y_prec="@),
        comma_free("iterations="@),
{
    reveal_strlit("x=");
    reveal_strlit(",y=");
    reveal_strlit(",x_prec=");
    reveal_strlit(",y_prec=");
    reveal_strlit(",iterations=");
    reveal_strlit("y=");
    reveal_strlit("x_prec=");
    reveal_strlit("y_prec=");
    reveal_strlit("iterations=");
    assert(",y="@ =~= seq![','] + "y="@);
    assert(",x_prec="@ =~= seq![','] + "x_prec="@);
    assert(",y_prec="@ =~= seq![','] + "y_prec="@);
    assert(",iterations="@ =~= seq![','] + "iterations="@);
    assert(canonical_text(r) =~= ("x="@ + r.c.real.value@) + seq![','] + (("y="@
        + r.c.imag.value@) + seq![','] + (("x_prec="@ + decimal_text(r.c.real.prec as nat))
        + seq![','] + (("y_prec="@ + decimal_text(r.c.imag.prec as nat)) + seq![','] + (
    "iterations="@ + decimal_text(r.iterations as nat))))));
}

/// The text of a label followed by a comma-free field holds no comma.
proof fn lemma_field_comma_free(label: Seq<char>, field: Seq<char>)
    requires
        comma_free(label),
        comma_free(field),
    ensures
        comma_free(label + field),
{
    assert forall|i: int| 0 <= i < (label + field).len() implies #[trigger] (label + field)[i]
        != ',' by {
        if i < label.len() {
            assert((label + field)[i] == label[i]);
        } else {
            assert((label + field)[i] == field[i - label.len()]);
        }
    }
}

/// Requests whose coordinates hold no comma and whose canonical texts agree agree in
/// every field: no two such requests that differ anywhere share a canonical text.
pub proof fn lemma_canonical_text_injective(r1: ComputePointRequest, r2: ComputePointRequest)
    requires
        comma_free(r1.c.real.value@),
        comma_free(r1.c.imag.value@),
        comma_free(r2.c.real.value@),
        comma_free(r2.c.imag.value@),
        canonical_text(r1) == canonical_text(r2),
    ensures
        r1.c.real.value@ == r2.c.real.value@,
        r1.c.imag.value@ == r2.c.imag.value@,
        r1.c.real.prec == r2.c.real.prec,
        r1.c.imag.prec == r2.c.imag.prec,
        r1.iterations == r2.iterations,
{
    lemma_canonical_fields(r1);
    lemma_canonical_fields(r2);
    let xp1 = decimal_text(r1.c.real.prec as nat);
    let xp2 = decimal_text(r2.c.real.prec as nat);
    let yp1 = decimal_text(r1.c.imag.prec as nat);
    let yp2 = decimal_text(r2.c.imag.prec as nat);
    let it1 = decimal_text(r1.iterations as nat);
    let it2 = decimal_text(r2.iterations as nat);
    lemma_decimal_comma_free(r1.c.real.prec as nat);
    lemma_decimal_comma_free(r2.c.real.prec as nat);
    lemma_decimal_comma_free(r1.c.imag.prec as nat);
    lemma_decimal_comma_free(r2.c.imag.prec as nat);
    lemma_field_comma_free("x="@, r1.c.real.value@);
    lemma_field_comma_free("x="@, r2.c.real.value@);
    lemma_field_comma_free("y="@, r1.c.imag.value@);
    lemma_field_comma_free("y="@, r2.c.imag.value@);
    lemma_field_comma_free("x_prec="@, xp1);
    lemma_field_comma_free("x_prec="@, xp2);
    lemma_field_comma_free("y_prec="@, yp1);
    lemma_field_comma_free("y_prec="@, yp2);
    let t3_1 = ("y_prec="@ + yp1) + seq![','] + ("iterations="@ + it1);
    let t3_2 = ("y_prec="@ + yp2) + seq![','] + ("iterations="@ + it2);
    let t2_1 = ("x_prec="@ + xp1) + seq![','] + t3_1;
    let t2_2 = ("x_prec="@ + xp2) + seq![','] + t3_2;
    let t1_1 = ("y="@ + r1.c.imag.value@) + seq![','] + t2_1;
    let t1_2 = ("y="@ + r2.c.imag.value@) + seq![','] + t2_2;
    lemma_split_at_comma("x="@ + r1.c.real.value@, t1_1, "x="@ + r2.c.real.value@, t1_2);
    lemma_split_at_comma("y="@ + r1.c.imag.value@, t2_1, "y="@ + r2.c.imag.value@, t2_2);
    lemma_split_at_comma("x_prec="@ + xp1, t3_1, "x_prec="@ + xp2, t3_2);
    lemma_split_at_comma(
        "y_prec="@ + yp1,
        "iterations="@ + it1,
        "y_prec="@ + yp2,
        "iterations="@ + it2,
    );
    lemma_strip_label("x="@, r1.c.real.value@, r2.c.real.value@);
    lemma_strip_label("y="@, r1.c.imag.value@, r2.c.imag.value@);
    lemma_strip_label("x_prec="@, xp1, xp2);
    lemma_strip_label("y_prec="@, yp1, yp2);
    lemma_strip_label("iterations="@, it1, it2);
    lemma_decimal_text_injective(r1.c.real.prec as nat, r2.c.real.prec as nat);
    lemma_decimal_text_injective(r1.c.imag.prec as nat, r2.c.imag.prec as nat);
    lemma_decimal_text_injective(r1.iterations as nat, r2.iterations as nat);
}

/// Two requests are kept under the same key only where the digests of their
/// canonical texts are the same.
pub proof fn lemma_same_key_same_digest(
    prefix: Seq<char>,
    r1: ComputePointRequest,
    r2: ComputePointRequest,
)
    requires
        cache_key(prefix, r1) == cache_key(prefix, r2),
    ensures
        sha3_512_digest(vstd::utf8::encode_utf8(canonical_text(r1))) == sha3_512_digest(
            vstd::utf8::encode_utf8(canonical_text(r2)),
        ),
{
    lemma_strip_label(prefix, hashed_key(r1), hashed_key(r2));
    lemma_hex_text_injective(
        sha3_512_digest(vstd::utf8::encode_utf8(canonical_text(r1))),
        sha3_512_digest(vstd::utf8::encode_utf8(canonical_text(r2))),
    );
}

/// Requests whose coordinates hold no comma and that differ in a field are hashed
/// from different bytes: they can share a key only where SHA3-512 collides.
pub proof fn lemma_distinct_requests_distinct_input(
    r1: ComputePointRequest,
    r2: ComputePointRequest,
)
    requires
        comma_free(r1.c.real.value@),
        comma_free(r1.c.imag.value@),
        comma_free(r2.c.real.value@),
        comma_free(r2.c.imag.value@),
        r1.c.real.value@ != r2.c.real.value@ || r1.c.imag.value@ != r2.c.imag.value@
            || r1.c.real.prec != r2.c.real.prec || r1.c.imag.prec != r2.c.imag.prec
            || r1.iterations != r2.iterations,
    ensures
        vstd::utf8::encode_utf8(canonical_text(r1)) != vstd::utf8::encode_utf8(
            canonical_text(r2),
        ),
{
    if canonical_text(r1) == canonical_text(r2) {
        lemma_canonical_text_injective(r1, r2);
    }
    vstd::utf8::encode_utf8_decode_utf8(canonical_text(r1));
    vstd::utf8::encode_utf8_decode_utf8(canonical_text(r2));
}

/// Requests whose coordinates hold no comma and that differ in a field share a key
/// only through a collision of SHA3-512: two different byte strings with one digest.
pub proof fn lemma_shared_key_is_digest_collision(
    prefix: Seq<char>,
    r1: ComputePointRequest,
    r2: ComputePointRequest,
)
    requires
        comma_free(r1.c.real.value@),
        comma_free(r1.c.imag.value@),
        comma_free(r2.c.real.value@),
        comma_free(r2.c.imag.value@),
        r1.c.real.value@ != r2.c.real.value@ || r1.c.imag.value@ != r2.c.imag.value@
            || r1.c.real.prec != r2.c.real.prec || r1.c.imag.prec != r2.c.imag.prec
            || r1.iterations != r2.iterations,
        cache_key(prefix, r1) == cache_key(prefix, r2),
    ensures
        vstd::utf8::encode_utf8(canonical_text(r1)) != vstd::utf8::encode_utf8(
            canonical_text(r2),
        ),
        sha3_512_digest(vstd::utf8::encode_utf8(canonical_text(r1))) == sha3_512_digest(
            vstd::utf8::encode_utf8(canonical_text(r2)),
        ),
{
    lemma_distinct_requests_distinct_input(r1, r2);
    lemma_same_key_same_digest(prefix, r1, r2);
}

/// Writes the canonical text of `r`.
pub fn canonical_string(r: &ComputePointRequest) -> (text: String)
    ensures
        text@ == canonical_text(*r),
{
    let mut text = String::from_str("x=");
    text.append(r.c.real.value.as_str());
    text.append(",y=");
    text.append(r.c.imag.value.as_str());
    text.append(",x_prec=");
    push_decimal(&mut text, r.c.real.prec);
    text.append(",y_prec=");
    push_decimal(&mut text, r.c.imag.prec);
    text.append(",iterations=");
    push_decimal(&mut text, r.iterations as u64);
    text
}

/// Derives the key under which the result of `r` is kept in the store of `config`:
/// the configured prefix, then the SHA3-512 digest of the canonical text of `r` in
/// 128 hexadecimal digits.
pub fn derive_key(config: &S3Config, r: &ComputePointRequest) -> (key: String)
    ensures
        key@ == cache_key(config.prefix@, *r),
        key@.len() == config.prefix@.len() + KEY_DIGITS,
{
    let canonical = canonical_string(r);
    let digest = sha3_512(canonical.as_str().as_bytes());
    let digits = hex_encode(digest.as_slice());
    proof {
        lemma_hex_text_len(digest@);
    }
    let mut key = config.prefix.clone();
    key.append(digits.as_str());
    key
}

} // verus!
