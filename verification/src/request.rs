//! Building request lines, and the law that reading a built line gives back
//! exactly the command, parameters and sequence number that went into it.
use vstd::prelude::*;
use vstd::utf8::{encode_utf8, is_ascii_chars, is_ascii_chars_encode_utf8};
use crate::chars::is_white_space;
use crate::codec::{
    ascii_bytes, encode_byte, encode_value, is_unreserved, lemma_decode_encode_roundtrip,
    percent_encode,
};
use crate::crc::hex8;
use crate::line::{
    build_proto_line, crc_marker, first_eq, has_eq, has_marker, last_marker, line_text,
    marker_at, param_parts, params_of, parse_line_text, seq_key, split_crc_text,
};
use crate::numbers::{all_digits, decimal, is_digit, lemma_decimal_digits_value, push_decimal};
use crate::text::{lemma_words_append, lemma_words_single, no_white_space, trim, trim_end, trim_start, words};

verus! {

/// The views of a list of name/value pairs.
pub open spec fn pairs_view(v: Seq<(String, String)>) -> Seq<(Seq<char>, Seq<char>)> {
    v.map_values(|p: (String, String)| (p.0@, p.1@))
}

/// The map that name/value pairs set, later pairs winning.
pub open spec fn pairs_map(ps: Seq<(Seq<char>, Seq<char>)>) -> Map<Seq<char>, Seq<char>>
    decreases ps.len(),
{
    if ps.len() == 0 {
        Map::empty()
    } else {
        pairs_map(ps.drop_last()).insert(ps.last().0, ps.last().1)
    }
}

/// The word that sends the parameter `k` with the value `v`.
pub open spec fn param_word(k: Seq<char>, v: Seq<char>) -> Seq<char> {
    k + seq!['='] + percent_encode(encode_utf8(v))
}

/// The command word followed by one word per parameter.
pub open spec fn params_text(cmd: Seq<char>, ps: Seq<(Seq<char>, Seq<char>)>) -> Seq<char>
    decreases ps.len(),
{
    if ps.len() == 0 {
        cmd
    } else {
        params_text(cmd, ps.drop_last()) + seq![' '] + param_word(ps.last().0, ps.last().1)
    }
}

/// The content of a line with the sequence text `s`: command, parameters, and ` seq=` then `s`.
pub open spec fn seq_base(cmd: Seq<char>, ps: Seq<(Seq<char>, Seq<char>)>, s: Seq<char>) -> Seq<char> {
    params_text(cmd, ps) + seq![' ', 's', 'e', 'q', '='] + s
}

/// The content of a request line: command, parameters, and ` seq=N`.
pub open spec fn request_base(cmd: Seq<char>, ps: Seq<(Seq<char>, Seq<char>)>, seq: u64) -> Seq<char> {
    seq_base(cmd, ps, decimal(seq as nat))
}

/// The content of a request line for `command` with `params` and sequence number `seq`.
pub fn request_base_text(command: &str, params: &Vec<(String, String)>, seq: u64) -> (r: String)
    ensures
        r@ == request_base(command@, pairs_view(params@), seq),
{
    let mut base = String::from_str(command);
    let n = params.len();
    let ghost ps = pairs_view(params@);
    proof {
        reveal_strlit(" ");
        reveal_strlit("=");
        reveal_strlit(" seq=");
    }
    for i in 0..n
        invariant
            n == params@.len(),
            ps == pairs_view(params@),
            base@ == params_text(command@, ps.take(i as int)),
    {
        proof {
            reveal_strlit(" ");
            reveal_strlit("=");
        }
        let (key, value) = (&params[i].0, &params[i].1);
        let encoded = encode_value(value.as_str());
        base.append(" ");
        base.append(key.as_str());
        base.append("=");
        base.append(encoded.as_str());
        assert(ps.take(i + 1).drop_last() =~= ps.take(i as int));
        assert(ps.take(i + 1).last() == (key@, value@));
        assert(base@ =~= params_text(command@, ps.take(i + 1)));
    }
    assert(ps.take(n as int) =~= ps);
    base.append(" seq=");
    push_decimal(&mut base, seq);
    assert(base@ =~= request_base(command@, ps, seq));
    base
}

/// The complete request line, checksum included.
pub fn build_request_line(command: &str, params: &Vec<(String, String)>, seq: u64) -> (r: String)
    ensures
        r@ == line_text(request_base(command@, pairs_view(params@), seq)),
{
    let base = request_base_text(command, params, seq);
    build_proto_line(base.as_str())
}

/// Whether a parameter name can be sent and read back: no white space, no `=`.
pub open spec fn plain_name(k: Seq<char>) -> bool {
    no_white_space(k) && forall|i: int| 0 <= i < k.len() ==> k[i] != '='
}

/// The word for each pair.
pub open spec fn param_words(ps: Seq<(Seq<char>, Seq<char>)>) -> Seq<Seq<char>> {
    ps.map_values(|p: (Seq<char>, Seq<char>)| param_word(p.0, p.1))
}

proof fn lemma_ascii_char(c: char)
    requires
        (c as u32) < 128,
    ensures
        ((c as u8) as char) == c,
        '\0' <= c <= '\u{7f}',
{
}

proof fn lemma_encode_plain(cs: Seq<char>)
    requires
        forall|i: int| 0 <= i < cs.len() ==> (#[trigger] cs[i] as u32) < 128 && is_unreserved(cs[i] as u8),
    ensures
        percent_encode(ascii_bytes(cs)) == cs,
    decreases cs.len(),
{
    if cs.len() > 0 {
        let init = cs.drop_last();
        assert(ascii_bytes(cs).drop_last() =~= ascii_bytes(init));
        lemma_encode_plain(init);
        let c = cs.last();
        assert(c == cs[cs.len() - 1]);
        assert((c as u32) < 128);
        lemma_ascii_char(c);
        assert(encode_byte(ascii_bytes(cs).last()) =~= seq![c]);
        assert(init.push(c) =~= cs);
    }
}

/// Decimal digits are sent as they are.
proof fn lemma_digits_encode_to_themselves(d: Seq<char>)
    requires
        all_digits(d),
    ensures
        percent_encode(encode_utf8(d)) == d,
{
    assert forall|i: int| #![trigger d[i]] 0 <= i < d.len() implies ('\0' <= d[i] && d[i] <= '\u{7f}') by {
        assert(is_digit(d[i]));
        lemma_ascii_char(d[i]);
    }
    assert forall|i: int| 0 <= i < d.len() implies (#[trigger] d[i] as u32) < 128 && is_unreserved(d[i] as u8) by {
        assert(is_digit(d[i]));
        assert(48 <= (d[i] as u32) <= 57);
    }
    assert(is_ascii_chars(d));
    is_ascii_chars_encode_utf8(d);
    assert(encode_utf8(d) =~= ascii_bytes(d));
    lemma_encode_plain(d);
}

proof fn lemma_encode_no_white_space(bytes: Seq<u8>)
    ensures
        no_white_space(percent_encode(bytes)),
        forall|i: int| 0 <= i < percent_encode(bytes).len() ==> #[trigger] percent_encode(bytes)[i] != '=',
    decreases bytes.len(),
{
    if bytes.len() > 0 {
        lemma_encode_no_white_space(bytes.drop_last());
        let a = percent_encode(bytes.drop_last());
        let b = bytes.last();
        let e = encode_byte(b);
        assert((b >> 4u8) < 16 && (b & 15u8) < 16) by (bit_vector);
        assert forall|i: int| 0 <= i < e.len() implies !is_white_space(#[trigger] e[i]) && e[i] != '=' by {}
        assert forall|i: int| 0 <= i < (a + e).len() implies !is_white_space(#[trigger] (a + e)[i]) && (a + e)[i] != '=' by {
            if i < a.len() {
                assert((a + e)[i] == a[i]);
            } else {
                assert((a + e)[i] == e[i - a.len()]);
            }
        }
    }
}

proof fn lemma_param_word_shape(k: Seq<char>, v: Seq<char>)
    requires
        plain_name(k),
    ensures
        param_word(k, v).len() > 0,
        no_white_space(param_word(k, v)),
        param_parts(param_word(k, v)) == Some((k, percent_encode(encode_utf8(v)))),
{
    let e = percent_encode(encode_utf8(v));
    let w = param_word(k, v);
    lemma_encode_no_white_space(encode_utf8(v));
    assert forall|i: int| 0 <= i < w.len() implies !is_white_space(#[trigger] w[i]) by {
        if i < k.len() {
            assert(w[i] == k[i]);
        } else if i > k.len() {
            assert(w[i] == e[i - k.len() - 1]);
        }
    }
    assert(w[k.len() as int] == '=');
    assert(has_eq(w));
    let f = first_eq(w);
    assert(f == k.len()) by {
        if f < k.len() {
            assert(w[f] == k[f]);
        }
    }
    assert(w.take(f) =~= k);
    assert(w.skip(f + 1) =~= e);
}

proof fn lemma_words_params(cmd: Seq<char>, ps: Seq<(Seq<char>, Seq<char>)>)
    requires
        cmd.len() > 0,
        no_white_space(cmd),
        forall|i: int| 0 <= i < ps.len() ==> plain_name(#[trigger] ps[i].0),
    ensures
        words(params_text(cmd, ps)) == seq![cmd] + param_words(ps),
    decreases ps.len(),
{
    if ps.len() == 0 {
        lemma_words_single(cmd);
        assert(seq![cmd] + param_words(ps) =~= seq![cmd]);
    } else {
        let init = ps.drop_last();
        let last = ps.last();
        assert(forall|i: int| 0 <= i < init.len() ==> init[i] == ps[i]);
        lemma_words_params(cmd, init);
        assert(plain_name(ps[ps.len() - 1].0));
        lemma_param_word_shape(last.0, last.1);
        lemma_words_append(params_text(cmd, init), param_word(last.0, last.1));
        assert(param_words(ps) =~= param_words(init).push(param_word(last.0, last.1)));
        assert(seq![cmd] + param_words(ps) =~= (seq![cmd] + param_words(init)).push(param_word(last.0, last.1)));
    }
}

#[verifier::spinoff_prover]
proof fn lemma_params_of_words(ps: Seq<(Seq<char>, Seq<char>)>)
    requires
        forall|i: int| 0 <= i < ps.len() ==> plain_name(#[trigger] ps[i].0),
    ensures
        params_of(param_words(ps)) == Ok::<Map<Seq<char>, Seq<char>>, crate::error::ProtoError>(pairs_map(ps)),
    decreases ps.len(),
{
    if ps.len() > 0 {
        let init = ps.drop_last();
        let last = ps.last();
        assert(forall|i: int| 0 <= i < init.len() ==> init[i] == ps[i]);
        lemma_params_of_words(init);
        let ws = param_words(ps);
        assert(ws.drop_last() =~= param_words(init));
        assert(ws.last() == param_word(last.0, last.1));
        assert(plain_name(ps[ps.len() - 1].0));
        lemma_param_word_shape(last.0, last.1);
        lemma_decode_encode_roundtrip(last.1);
        lemma_params_of_step(ws, pairs_map(init), last.0, percent_encode(encode_utf8(last.1)), last.1);
    }
}

proof fn lemma_params_of_step(
    ws: Seq<Seq<char>>,
    m: Map<Seq<char>, Seq<char>>,
    k: Seq<char>,
    e: Seq<char>,
    v: Seq<char>,
)
    requires
        ws.len() > 0,
        params_of(ws.drop_last()) == Ok::<Map<Seq<char>, Seq<char>>, crate::error::ProtoError>(m),
        param_parts(ws.last()) == Some((k, e)),
        crate::codec::decode_text(e) == Ok::<Seq<char>, crate::error::ProtoError>(v),
    ensures
        params_of(ws) == Ok::<Map<Seq<char>, Seq<char>>, crate::error::ProtoError>(m.insert(k, v)),
{
}

proof fn lemma_pairs_map_keys(ps: Seq<(Seq<char>, Seq<char>)>, k: Seq<char>)
    requires
        forall|i: int| 0 <= i < ps.len() ==> (#[trigger] ps[i]).0 != k,
    ensures
        !pairs_map(ps).contains_key(k),
    decreases ps.len(),
{
    if ps.len() > 0 {
        let init = ps.drop_last();
        assert(forall|i: int| 0 <= i < init.len() ==> init[i] == ps[i]);
        lemma_pairs_map_keys(init, k);
        assert(ps[ps.len() - 1].0 != k);
    }
}

proof fn lemma_nibble(v: u32, k: u32)
    ensures
        (v >> k) & 0xFu32 < 16,
{
    assert((v >> k) & 0xFu32 < 16) by (bit_vector);
}

proof fn lemma_hex8_plain(v: u32)
    ensures
        forall|i: int| 0 <= i < 8 ==> (#[trigger] hex8(v)[i]) != ' ',
        !is_white_space(hex8(v)[0]),
        !is_white_space(hex8(v)[7]),
{
    assert forall|i: int| 0 <= i < 8 implies (#[trigger] hex8(v)[i]) != ' ' by {
        lemma_nibble(v, (28 - 4 * i) as u32);
    }
    lemma_nibble(v, 28);
    lemma_nibble(v, 0);
}

proof fn lemma_tail_no_space(base: Seq<char>, h: Seq<char>)
    requires
        h.len() == 8,
        forall|i: int| 0 <= i < 8 ==> (#[trigger] h[i]) != ' ',
    ensures
        forall|j: int|
            base.len() < j < (base + crc_marker() + h).len() ==> #[trigger] (base + crc_marker()
                + h)[j] != ' ',
{
    let s = base + crc_marker() + h;
    let b = base.len() as int;
    assert forall|j: int| b < j < s.len() implies #[trigger] s[j] != ' ' by {
        if j < b + 7 {
            assert(s[j] == crc_marker()[j - b]);
        } else {
            assert(s[j] == h[j - b - 7]);
        }
    }
}

#[verifier::spinoff_prover]
proof fn lemma_last_marker(base: Seq<char>)
    ensures
        has_marker(line_text(base)),
        last_marker(line_text(base)) == base.len(),
{
    let v = crate::crc::crc32_of(encode_utf8(base));
    let h = hex8(v);
    let s = line_text(base);
    let b = base.len() as int;
    lemma_hex8_plain(v);
    lemma_tail_no_space(base, h);
    assert(s.subrange(b, b + 7) =~= crc_marker());
    assert(marker_at(s, b));
    assert forall|j: int| marker_at(s, j) implies j <= b by {
        if j > b {
            assert(s.subrange(j, j + 7)[0] == s[j]);
        }
    }
    let i = last_marker(s);
    assert(i == b);
}

proof fn lemma_trim_hex8(v: u32)
    ensures
        trim(hex8(v)) == hex8(v),
{
    lemma_hex8_plain(v);
    let h = hex8(v);
    assert(trim_start(h) == h);
    assert(trim_end(h) == h);
}

/// A line made by `build_proto_line(base)` splits back into `base` and the
/// eight checksum digits of `base`, so its checksum check passes.
pub proof fn lemma_split_line(base: Seq<char>)
    ensures
        split_crc_text(line_text(base)) == Some((base, hex8(crate::crc::crc32_of(encode_utf8(base))))),
{
    let v = crate::crc::crc32_of(encode_utf8(base));
    let s = line_text(base);
    let b = base.len() as int;
    lemma_last_marker(base);
    lemma_trim_hex8(v);
    assert(s.skip(b + 7) =~= hex8(v));
    assert(s.take(b) =~= base);
}

/// Reading a line built from a command, parameters and any string of
/// decimal digits as the sequence text gives back exactly these: for a
/// command word without white space and parameter names without white space
/// or `=`, other than `seq`, the line parses to the command, the map from each
/// name to its last value, and the digit string itself, leading zeros kept.
#[verifier::spinoff_prover]
pub proof fn lemma_request_roundtrip_digits(cmd: Seq<char>, ps: Seq<(Seq<char>, Seq<char>)>, s: Seq<char>)
    requires
        cmd.len() > 0,
        no_white_space(cmd),
        forall|i: int| 0 <= i < ps.len() ==> plain_name(#[trigger] ps[i].0) && ps[i].0 != seq_key(),
        all_digits(s),
    ensures
        parse_line_text(line_text(seq_base(cmd, ps, s))) == Ok::<
            (Seq<char>, Map<Seq<char>, Seq<char>>, Seq<char>),
            crate::error::ProtoError,
        >((cmd, pairs_map(ps), s)),
{
    lemma_base_with_seq(cmd, ps, s);
    lemma_roundtrip_with_seq(cmd, ps, s, seq_base(cmd, ps, s));
}

#[verifier::spinoff_prover]
proof fn lemma_roundtrip_with_seq(
    cmd: Seq<char>,
    ps: Seq<(Seq<char>, Seq<char>)>,
    s: Seq<char>,
    base: Seq<char>,
)
    requires
        cmd.len() > 0,
        no_white_space(cmd),
        forall|i: int| 0 <= i < ps.len() ==> plain_name(#[trigger] ps[i].0) && ps[i].0 != seq_key(),
        base == params_text(cmd, ps.push((seq_key(), s))),
    ensures
        parse_line_text(line_text(base)) == Ok::<
            (Seq<char>, Map<Seq<char>, Seq<char>>, Seq<char>),
            crate::error::ProtoError,
        >((cmd, pairs_map(ps), s)),
{
    let ps2 = ps.push((seq_key(), s));
    lemma_names_with_seq(ps, s);
    lemma_split_line(base);
    let h = hex8(crate::crc::crc32_of(encode_utf8(base)));
    lemma_words_params(cmd, ps2);
    let ws = words(base);
    assert(ws.drop_first() =~= param_words(ps2));
    lemma_params_of_words(ps2);
    lemma_map_with_seq(ps, s);
    lemma_parse_line_ok(line_text(base), base, h, ws, pairs_map(ps2));
}

/// Reading a request line gives back what went into it: for a command word
/// without white space and parameter names without white space or `=`, other
/// than `seq`, `parse_proto_line(&build_request_line(command, params, seq))`
/// is `Ok` of a line whose kind is the command, whose parameters map each name
/// to its last value, and whose sequence number is `seq` in decimal.
#[verifier::spinoff_prover]
pub proof fn lemma_request_roundtrip(cmd: Seq<char>, ps: Seq<(Seq<char>, Seq<char>)>, seq: u64)
    requires
        cmd.len() > 0,
        no_white_space(cmd),
        forall|i: int| 0 <= i < ps.len() ==> plain_name(#[trigger] ps[i].0) && ps[i].0 != seq_key(),
    ensures
        parse_line_text(line_text(request_base(cmd, ps, seq))) == Ok::<
            (Seq<char>, Map<Seq<char>, Seq<char>>, Seq<char>),
            crate::error::ProtoError,
        >((cmd, pairs_map(ps), decimal(seq as nat))),
{
    lemma_decimal_digits_value(seq as nat);
    lemma_request_roundtrip_digits(cmd, ps, decimal(seq as nat));
}

proof fn lemma_names_with_seq(ps: Seq<(Seq<char>, Seq<char>)>, d: Seq<char>)
    requires
        forall|i: int| 0 <= i < ps.len() ==> plain_name(#[trigger] ps[i].0) && ps[i].0 != seq_key(),
    ensures
        forall|i: int| 0 <= i < ps.push((seq_key(), d)).len() ==> plain_name(#[trigger] ps.push((seq_key(), d))[i].0),
{
    let ps2 = ps.push((seq_key(), d));
    assert forall|i: int| 0 <= i < ps2.len() implies plain_name(#[trigger] ps2[i].0) by {
        if i < ps.len() {
            assert(ps2[i] == ps[i]);
        } else {
            lemma_seq_key_plain();
        }
    }
}

proof fn lemma_map_with_seq(ps: Seq<(Seq<char>, Seq<char>)>, d: Seq<char>)
    requires
        forall|i: int| 0 <= i < ps.len() ==> plain_name(#[trigger] ps[i].0) && ps[i].0 != seq_key(),
    ensures
        pairs_map(ps.push((seq_key(), d))).contains_key(seq_key()),
        pairs_map(ps.push((seq_key(), d)))[seq_key()] == d,
        pairs_map(ps.push((seq_key(), d))).remove(seq_key()) == pairs_map(ps),
{
    let ps2 = ps.push((seq_key(), d));
    assert(forall|i: int| 0 <= i < ps.len() ==> (#[trigger] ps[i]).0 != seq_key());
    lemma_pairs_map_keys(ps, seq_key());
    assert(ps2.drop_last() =~= ps);
    let m = pairs_map(ps2);
    assert(m == pairs_map(ps).insert(seq_key(), d));
    assert(m.remove(seq_key()) =~= pairs_map(ps));
}

proof fn lemma_seq_key_plain()
    ensures
        plain_name(seq_key()),
{
    assert forall|i: int| 0 <= i < seq_key().len() implies !is_white_space(#[trigger] seq_key()[i]) by {}
}

proof fn lemma_base_with_seq(cmd: Seq<char>, ps: Seq<(Seq<char>, Seq<char>)>, d: Seq<char>)
    requires
        all_digits(d),
    ensures
        seq_base(cmd, ps, d) == params_text(cmd, ps.push((seq_key(), d))),
{
    let ps2 = ps.push((seq_key(), d));
    lemma_digits_encode_to_themselves(d);
    assert(param_word(seq_key(), d) =~= seq_key() + seq!['='] + d);
    assert(ps2.drop_last() =~= ps);
    assert(seq_base(cmd, ps, d) =~= params_text(cmd, ps2));
}

#[verifier::spinoff_prover]
proof fn lemma_parse_line_ok(
    s: Seq<char>,
    base: Seq<char>,
    h: Seq<char>,
    ws: Seq<Seq<char>>,
    m: Map<Seq<char>, Seq<char>>,
)
    requires
        split_crc_text(s) == Some((base, h)),
        h == hex8(crate::crc::crc32_of(encode_utf8(base))),
        crate::chars::eq_ignore_case(h, h),
        ws == words(base),
        ws.len() > 0,
        params_of(ws.drop_first()) == Ok::<Map<Seq<char>, Seq<char>>, crate::error::ProtoError>(m),
        m.contains_key(seq_key()),
    ensures
        parse_line_text(s) == Ok::<
            (Seq<char>, Map<Seq<char>, Seq<char>>, Seq<char>),
            crate::error::ProtoError,
        >((ws[0], m.remove(seq_key()), m[seq_key()])),
{
}

} // verus!
