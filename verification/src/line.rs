//! Protocol lines: `COMMAND key=value ... seq=N crc32=XXXXXXXX`, where every
//! value is percent-encoded and the checksum covers everything before ` crc32=`.
use vstd::prelude::*;
use vstd::utf8::encode_utf8;
use crate::chars::{eq_ignore_ascii_case, eq_ignore_case};
use crate::codec::{decode_text, decode_value};
use crate::crc::{crc32_hex, crc32_of, hex8};
use crate::error::ProtoError;
use crate::params::Params;
use crate::strings::{chars_of, string_from_chars};
use crate::text::{split_words, trim, trim_bounds, words, words_view};

verus! {

/// The text that separates a line from its checksum.
pub open spec fn crc_marker() -> Seq<char> {
    seq![' ', 'c', 'r', 'c', '3', '2', '=']
}

/// Whether the checksum separator starts at `i` in `s`.
pub open spec fn marker_at(s: Seq<char>, i: int) -> bool {
    0 <= i && i + 7 <= s.len() && s.subrange(i, i + 7) == crc_marker()
}

/// Whether `s` holds the checksum separator anywhere.
pub open spec fn has_marker(s: Seq<char>) -> bool {
    exists|i: int| marker_at(s, i)
}

/// Where the last checksum separator of `s` starts.
pub open spec fn last_marker(s: Seq<char>) -> int {
    choose|i: int| marker_at(s, i) && forall|j: int| marker_at(s, j) ==> j <= i
}

/// The content and the checksum text of a line: the text before the last
/// separator, and the trimmed text after it, which must not be empty.
pub open spec fn split_crc_text(s: Seq<char>) -> Option<(Seq<char>, Seq<char>)> {
    if !has_marker(s) {
        None
    } else {
        let i = last_marker(s);
        let crc = trim(s.skip(i + 7));
        if crc.len() == 0 {
            None
        } else {
            Some((s.take(i), crc))
        }
    }
}

/// A line carrying `base` and its checksum.
pub open spec fn line_text(base: Seq<char>) -> Seq<char> {
    base + crc_marker() + hex8(crc32_of(encode_utf8(base)))
}

fn copy_range(s: &Vec<char>, a: usize, b: usize) -> (r: Vec<char>)
    requires
        a <= b <= s@.len(),
    ensures
        r@ == s@.subrange(a as int, b as int),
{
    let mut out: Vec<char> = Vec::new();
    let mut i = a;
    while i < b
        invariant
            a <= i <= b <= s@.len(),
            out@ == s@.subrange(a as int, i as int),
        decreases b - i,
    {
        out.push(s[i]);
        i = i + 1;
        assert(out@ =~= s@.subrange(a as int, i as int));
    }
    out
}

fn is_marker_at(s: &Vec<char>, i: usize) -> (r: bool)
    requires
        i + 7 <= s@.len(),
    ensures
        r == marker_at(s@, i as int),
{
    let n = s.len();
    assert(i + 7 <= n);
    let ok = s[i] == ' ' && s[i + 1] == 'c' && s[i + 2] == 'r' && s[i + 3] == 'c' && s[i + 4] == '3'
        && s[i + 5] == '2' && s[i + 6] == '=';
    if ok {
        assert(s@.subrange(i as int, i + 7) =~= crc_marker());
    } else {
        assert(s@.subrange(i as int, i + 7) != crc_marker()) by {
            let t = s@.subrange(i as int, i + 7);
            if t == crc_marker() {
                assert(t[0] == ' ' && t[1] == 'c' && t[2] == 'r' && t[3] == 'c');
                assert(t[4] == '3' && t[5] == '2' && t[6] == '=');
            }
        }
    }
    ok
}

/// Splits a line of characters into content and checksum text.
fn split_crc_chars(s: &Vec<char>) -> (r: Option<(Vec<char>, Vec<char>)>)
    ensures
        match split_crc_text(s@) {
            Some((b, c)) => r matches Some((rb, rc)) && rb@ == b && rc@ == c,
            None => r is None,
        },
{
    let n = s.len();
    if n < 7 {
        assert(!has_marker(s@));
        return None;
    }
    let mut i: usize = n - 7 + 1;
    while i > 0
        invariant
            n == s@.len(),
            n >= 7,
            i <= n - 6,
            forall|j: int| i <= j ==> !marker_at(s@, j),
        decreases i,
    {
        if is_marker_at(s, i - 1) {
            let idx = i - 1;
            proof {
                assert(marker_at(s@, idx as int));
                assert(has_marker(s@));
                let k = last_marker(s@);
                assert(k == idx);
            }
            let tail = copy_range(s, idx + 7, n);
            assert(tail@ =~= s@.skip(idx + 7));
            let (a, b) = trim_bounds(&tail);
            if a == b {
                return None;
            }
            let base = copy_range(s, 0, idx);
            assert(base@ =~= s@.take(idx as int));
            let crc = copy_range(&tail, a, b);
            return Some((base, crc));
        }
        i = i - 1;
    }
    assert(!has_marker(s@));
    None
}

/// Splits a line into its content and its checksum text, as `line.rfind(" crc32=")`
/// and a trim of what follows do; `None` where there is no separator or no checksum.
pub fn split_crc(line: &str) -> (r: Option<(String, String)>)
    ensures
        match split_crc_text(line@) {
            Some((b, c)) => r matches Some((rb, rc)) && rb@ == b && rc@ == c,
            None => r is None,
        },
{
    let s = chars_of(line);
    match split_crc_chars(&s) {
        Some((b, c)) => Some((string_from_chars(&b), string_from_chars(&c))),
        None => None,
    }
}

/// Appends the checksum trailer to the line content `base`.
pub fn build_proto_line(base: &str) -> (r: String)
    ensures
        r@ == line_text(base@),
{
    let crc = crc32_hex(base.as_bytes());
    let mut line = string_from_chars(&chars_of(base));
    line.append(" crc32=");
    line.append(crc.as_str());
    proof {
        reveal_strlit(" crc32=");
    }
    assert(line@ =~= line_text(base@));
    line
}

/// Whether `w` holds an `=`.
pub open spec fn has_eq(w: Seq<char>) -> bool {
    exists|i: int| 0 <= i < w.len() && w[i] == '='
}

/// Where the first `=` of `w` stands.
pub open spec fn first_eq(w: Seq<char>) -> int {
    choose|i: int| 0 <= i < w.len() && w[i] == '=' && forall|j: int| 0 <= j < i ==> w[j] != '='
}

/// A parameter word split at its first `=` into name and encoded value.
pub open spec fn param_parts(w: Seq<char>) -> Option<(Seq<char>, Seq<char>)> {
    if has_eq(w) {
        Some((w.take(first_eq(w)), w.skip(first_eq(w) + 1)))
    } else {
        None
    }
}

/// The parameters that the words `ws` set, or the first reason one of them
/// cannot be read.
pub open spec fn params_of(ws: Seq<Seq<char>>) -> Result<Map<Seq<char>, Seq<char>>, ProtoError>
    decreases ws.len(),
{
    if ws.len() == 0 {
        Ok(Map::empty())
    } else {
        match params_of(ws.drop_last()) {
            Err(e) => Err(e),
            Ok(m) => match param_parts(ws.last()) {
                None => Err(ProtoError::BadParam),
                Some((k, v)) => match decode_text(v) {
                    Err(e) => Err(e),
                    Ok(d) => Ok(m.insert(k, d)),
                },
            },
        }
    }
}

/// The name of the sequence-number parameter.
pub open spec fn seq_key() -> Seq<char> {
    seq!['s', 'e', 'q']
}

/// What reading the line `s` gives: its command word, its other parameters
/// and its sequence number, or the first reason it cannot be read.
pub open spec fn parse_line_text(s: Seq<char>) -> Result<
    (Seq<char>, Map<Seq<char>, Seq<char>>, Seq<char>),
    ProtoError,
> {
    match split_crc_text(s) {
        None => Err(ProtoError::MissingCrc),
        Some((base, crc)) => if !eq_ignore_case(hex8(crc32_of(encode_utf8(base))), crc) {
            Err(ProtoError::BadCrc)
        } else {
            let ws = words(base);
            if ws.len() == 0 {
                Err(ProtoError::MissingCommand)
            } else {
                match params_of(ws.drop_first()) {
                    Err(e) => Err(e),
                    Ok(m) => if !m.contains_key(seq_key()) {
                        Err(ProtoError::MissingSeq)
                    } else {
                        Ok((ws[0], m.remove(seq_key()), m[seq_key()]))
                    },
                }
            }
        }
    }
}

/// One received protocol line.
#[derive(Debug)]
pub struct ProtoLine {
    pub kind: String,
    pub params: Params,
    pub seq: String,
}

impl View for ProtoLine {
    type V = (Seq<char>, Map<Seq<char>, Seq<char>>, Seq<char>);

    open spec fn view(&self) -> Self::V {
        (self.kind@, self.params@, self.seq@)
    }
}

proof fn lemma_params_err_stays(ws: Seq<Seq<char>>, k: int, e: ProtoError)
    requires
        0 <= k <= ws.len(),
        params_of(ws.take(k)) == Err::<Map<Seq<char>, Seq<char>>, ProtoError>(e),
    ensures
        params_of(ws) == Err::<Map<Seq<char>, Seq<char>>, ProtoError>(e),
    decreases ws.len() - k,
{
    if k < ws.len() {
        assert(ws.take(k + 1).drop_last() =~= ws.take(k));
        lemma_params_err_stays(ws, k + 1, e);
    } else {
        assert(ws.take(k) =~= ws);
    }
}

/// Splits a parameter word at its first `=`.
fn split_param(w: &Vec<char>) -> (r: Option<(Vec<char>, Vec<char>)>)
    ensures
        match param_parts(w@) {
            Some((k, v)) => r matches Some((rk, rv)) && rk@ == k && rv@ == v,
            None => r is None,
        },
{
    let n = w.len();
    for i in 0..n
        invariant
            n == w@.len(),
            forall|j: int| 0 <= j < i ==> w@[j] != '=',
    {
        if w[i] == '=' {
            proof {
                assert(has_eq(w@));
                let f = first_eq(w@);
                assert(f == i);
            }
            let k = copy_range(w, 0, i);
            let v = copy_range(w, i + 1, n);
            assert(k@ =~= w@.take(i as int));
            assert(v@ =~= w@.skip(i + 1));
            return Some((k, v));
        }
    }
    assert(!has_eq(w@));
    None
}

/// Reads the parameter words, all words of `ws` but the first.
fn read_params(ws: &Vec<Vec<char>>) -> (r: Result<Params, ProtoError>)
    requires
        ws@.len() > 0,
    ensures
        match params_of(words_view(ws@).drop_first()) {
            Ok(m) => r matches Ok(p) && p@ == m,
            Err(e) => r matches Err(x) && x == e,
        },
{
    let ghost wsv = words_view(ws@);
    let ghost rest = wsv.drop_first();
    let mut params = Params::new();
    let n = ws.len();
    assert(rest.take(0) =~= Seq::<Seq<char>>::empty());
    for i in 1..n
        invariant
            n == ws@.len(),
            wsv == words_view(ws@),
            rest == wsv.drop_first(),
            params_of(rest.take(i - 1)) == Ok::<Map<Seq<char>, Seq<char>>, ProtoError>(params@),
    {
        assert(rest.take(i as int).drop_last() =~= rest.take(i - 1));
        assert(rest.take(i as int).last() == ws@[i as int]@);
        let (k, v) = match split_param(&ws[i]) {
            Some(parts) => parts,
            None => {
                proof {
                    lemma_params_err_stays(rest, i as int, ProtoError::BadParam);
                }
                return Err(ProtoError::BadParam);
            },
        };
        let value_text = string_from_chars(&v);
        let decoded = match decode_value(value_text.as_str()) {
            Ok(d) => d,
            Err(e) => {
                proof {
                    lemma_params_err_stays(rest, i as int, e);
                }
                return Err(e);
            },
        };
        params.insert(string_from_chars(&k), decoded);
    }
    assert(rest.take(n - 1) =~= rest);
    Ok(params)
}

/// Reads a received line: checks its checksum, splits it into words, decodes
/// its parameters and takes out its sequence number.
pub fn parse_proto_line(line: &str) -> (r: Result<ProtoLine, ProtoError>)
    ensures
        match parse_line_text(line@) {
            Ok(v) => r matches Ok(l) && l@ == v,
            Err(e) => r matches Err(x) && x == e,
        },
{
    parse_proto_chars(&chars_of(line))
}

/// Reads a received line given as its characters.
#[verifier::spinoff_prover]
pub fn parse_proto_chars(chars: &Vec<char>) -> (r: Result<ProtoLine, ProtoError>)
    ensures
        match parse_line_text(chars@) {
            Ok(v) => r matches Ok(l) && l@ == v,
            Err(e) => r matches Err(x) && x == e,
        },
{
    let (base, crc) = match split_crc_chars(chars) {
        Some(parts) => parts,
        None => {
            return Err(ProtoError::MissingCrc);
        },
    };
    let base_text = string_from_chars(&base);
    let expected = crc32_hex(base_text.as_str().as_bytes());
    let expected_chars = chars_of(expected.as_str());
    if !eq_ignore_ascii_case(&expected_chars, &crc) {
        return Err(ProtoError::BadCrc);
    }
    let ws = split_words(&base);
    let ghost wsv = words_view(ws@);
    if ws.len() == 0 {
        return Err(ProtoError::MissingCommand);
    }
    assert(wsv[0] == ws@[0]@);
    let kind = string_from_chars(&ws[0]);
    let mut params = match read_params(&ws) {
        Ok(p) => p,
        Err(e) => {
            return Err(e);
        },
    };
    let seq = match params.remove("seq") {
        Some(s) => s,
        None => {
            proof {
                reveal_strlit("seq");
                assert("seq"@ =~= seq_key());
            }
            return Err(ProtoError::MissingSeq);
        },
    };
    proof {
        reveal_strlit("seq");
        assert("seq"@ =~= seq_key());
    }
    Ok(ProtoLine { kind, params, seq })
}

} // verus!
