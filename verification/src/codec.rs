//! The text form of the nested measurement lists.
//!
//! A customer row keeps its two lists of [`ClientData`] records serialized
//! in one text column each, as a JSON-shaped array of objects with a fixed
//! key order: absent fields are written as `null`, present ones as quoted
//! strings with `"` and `\` escaped.  The encoder and the parser here are
//! exact inverses, which [`lemma_list_round_trip`] proves; a text that is
//! not a well-formed encoding degrades to the empty list on a lenient
//! read, so one damaged column never aborts a whole listing.

use vstd::prelude::*;
use vstd::string::*;

use crate::data::{data_views, opt_str_view, ClientData, ClientDataV};
use crate::error::{DBError, ErrorKind};

verus! {

/// The four characters that stand for an absent field.
pub open spec fn nul() -> Seq<char> {
    seq!['n', 'u', 'l', 'l']
}

/// How one character of a field value is written: `"` and `\` get a
/// leading backslash, every other character stands for itself.
pub open spec fn esc_char(c: char) -> Seq<char> {
    if c == '"' || c == '\\' {
        seq!['\\', c]
    } else {
        seq![c]
    }
}

/// The escaped form of a whole field value.
pub open spec fn esc(s: Seq<char>) -> Seq<char>
    decreases s.len(),
{
    if s.len() == 0 {
        Seq::empty()
    } else {
        esc_char(s[0]) + esc(s.drop_first())
    }
}

/// The text of one optional field: `null`, or the escaped value quoted.
pub open spec fn enc_field(v: Option<Seq<char>>) -> Seq<char> {
    match v {
        None => nul(),
        Some(s) => seq!['"'] + esc(s) + seq!['"'],
    }
}

pub open spec fn k_machine() -> Seq<char> {
    "{\"machine\":"@
}

pub open spec fn k_width() -> Seq<char> {
    ",\"width\":"@
}

pub open spec fn k_gears() -> Seq<char> {
    ",\"gears\":"@
}

pub open spec fn k_pitch() -> Seq<char> {
    ",\"pitch\":"@
}

pub open spec fn k_girth() -> Seq<char> {
    ",\"girth\":"@
}

pub open spec fn k_count() -> Seq<char> {
    ",\"count\":"@
}

pub open spec fn k_thickness() -> Seq<char> {
    ",\"thickness\":"@
}

pub open spec fn k_distortion_rate() -> Seq<char> {
    ",\"distortion_rate\":"@
}

pub open spec fn k_trimmer() -> Seq<char> {
    ",\"trimmer\":"@
}

pub open spec fn k_note() -> Seq<char> {
    ",\"note\":"@
}

pub open spec fn k_end() -> Seq<char> {
    "}"@
}

/// The text of one record: the ten fields in fixed order.
#[verifier::opaque]
pub open spec fn enc_record(d: ClientDataV) -> Seq<char> {
    k_machine() + enc_field(d.machine) + k_width() + enc_field(d.width) + k_gears() + enc_field(
        d.gears,
    ) + k_pitch() + enc_field(d.pitch) + k_girth() + enc_field(d.girth) + k_count() + enc_field(
        d.count,
    ) + k_thickness() + enc_field(d.thickness) + k_distortion_rate() + enc_field(
        d.distortion_rate,
    ) + k_trimmer() + enc_field(d.trimmer) + k_note() + enc_field(d.note) + k_end()
}

/// The records of a list, separated by commas.
pub open spec fn enc_records(l: Seq<ClientDataV>) -> Seq<char>
    decreases l.len(),
{
    if l.len() == 0 {
        Seq::empty()
    } else if l.len() == 1 {
        enc_record(l[0])
    } else {
        enc_record(l[0]) + seq![','] + enc_records(l.drop_first())
    }
}

/// The stored text of a whole list.
pub open spec fn enc_list(l: Seq<ClientDataV>) -> Seq<char> {
    seq!['['] + enc_records(l) + seq![']']
}

/// The stored text of an optional list: an absent list is written `null`,
/// exactly as an absent field is.
pub open spec fn enc_opt_list(o: Option<Seq<ClientDataV>>) -> Seq<char> {
    match o {
        None => nul(),
        Some(l) => enc_list(l),
    }
}

/// Consumes `lit` from the front of `s`, or fails.
pub open spec fn expect(s: Seq<char>, lit: Seq<char>) -> Option<Seq<char>> {
    if lit.is_prefix_of(s) {
        Some(s.skip(lit.len() as int))
    } else {
        None
    }
}

/// Parses the body of a quoted string after its opening quote, up to and
/// including the closing quote; yields the unescaped value and the rest.
pub open spec fn p_str_body(s: Seq<char>) -> Option<(Seq<char>, Seq<char>)>
    decreases s.len(),
{
    if s.len() == 0 {
        None
    } else if s[0] == '"' {
        Some((Seq::empty(), s.drop_first()))
    } else if s[0] == '\\' {
        if s.len() >= 2 && (s[1] == '"' || s[1] == '\\') {
            match p_str_body(s.skip(2)) {
                Some(br) => Some((seq![s[1]] + br.0, br.1)),
                None => None,
            }
        } else {
            None
        }
    } else {
        match p_str_body(s.drop_first()) {
            Some(br) => Some((seq![s[0]] + br.0, br.1)),
            None => None,
        }
    }
}

/// Parses one optional field: a quoted string or `null`.
pub open spec fn p_field(s: Seq<char>) -> Option<(Option<Seq<char>>, Seq<char>)> {
    if s.len() >= 1 && s[0] == '"' {
        match p_str_body(s.drop_first()) {
            Some(br) => Some((Some(br.0), br.1)),
            None => None,
        }
    } else {
        match expect(s, nul()) {
            Some(r) => Some((None, r)),
            None => None,
        }
    }
}

/// Parses a key literal followed by its field.
pub open spec fn p_key_field(s: Seq<char>, key: Seq<char>) -> Option<
    (Option<Seq<char>>, Seq<char>),
> {
    match expect(s, key) {
        Some(r) => p_field(r),
        None => None,
    }
}

/// Parses one record: the ten keyed fields in fixed order, then the brace.
#[verifier::opaque]
pub open spec fn p_record(s: Seq<char>) -> Option<(ClientDataV, Seq<char>)> {
    match p_key_field(s, k_machine()) {
        None => None,
        Some(f1) => match p_key_field(f1.1, k_width()) {
            None => None,
            Some(f2) => match p_key_field(f2.1, k_gears()) {
                None => None,
                Some(f3) => match p_key_field(f3.1, k_pitch()) {
                    None => None,
                    Some(f4) => match p_key_field(f4.1, k_girth()) {
                        None => None,
                        Some(f5) => match p_key_field(f5.1, k_count()) {
                            None => None,
                            Some(f6) => match p_key_field(f6.1, k_thickness()) {
                                None => None,
                                Some(f7) => match p_key_field(f7.1, k_distortion_rate()) {
                                    None => None,
                                    Some(f8) => match p_key_field(f8.1, k_trimmer()) {
                                        None => None,
                                        Some(f9) => match p_key_field(f9.1, k_note()) {
                                            None => None,
                                            Some(f10) => match expect(f10.1, k_end()) {
                                                None => None,
                                                Some(rest) => Some(
                                                    (
                                                        ClientDataV {
                                                            machine: f1.0,
                                                            width: f2.0,
                                                            gears: f3.0,
                                                            pitch: f4.0,
                                                            girth: f5.0,
                                                            count: f6.0,
                                                            thickness: f7.0,
                                                            distortion_rate: f8.0,
                                                            trimmer: f9.0,
                                                            note: f10.0,
                                                        },
                                                        rest,
                                                    ),
                                                ),
                                            },
                                        },
                                    },
                                },
                            },
                        },
                    },
                },
            },
        },
    }
}

/// Parses one or more records followed by the closing bracket.
pub open spec fn p_records(s: Seq<char>) -> Option<(Seq<ClientDataV>, Seq<char>)>
    decreases s.len(),
{
    match p_record(s) {
        None => None,
        Some(dr) => {
            let r = dr.1;
            if r.len() >= s.len() {
                None
            } else if r.len() >= 1 && r[0] == ']' {
                Some((seq![dr.0], r.drop_first()))
            } else if r.len() >= 1 && r[0] == ',' {
                match p_records(r.drop_first()) {
                    Some(lr) => Some((seq![dr.0] + lr.0, lr.1)),
                    None => None,
                }
            } else {
                None
            }
        },
    }
}

/// Parses a whole stored list; the text must be consumed entirely.
pub open spec fn p_list(s: Seq<char>) -> Option<Seq<ClientDataV>> {
    if s.len() == 2 && s[0] == '[' && s[1] == ']' {
        Some(Seq::empty())
    } else if s.len() >= 1 && s[0] == '[' {
        match p_records(s.drop_first()) {
            Some(lr) => if lr.1.len() == 0 {
                Some(lr.0)
            } else {
                None
            },
            None => None,
        }
    } else {
        None
    }
}

/// What a stored column yields on a lenient read: a text that is not a
/// well-formed encoding degrades to the empty list.
pub open spec fn lenient_list(s: Seq<char>) -> Seq<ClientDataV> {
    match p_list(s) {
        Some(l) => l,
        None => Seq::empty(),
    }
}

proof fn lemma_expect_concat(a: Seq<char>, b: Seq<char>)
    ensures
        expect(a + b, a) == Some(b),
{
    assert(a =~= (a + b).subrange(0, a.len() as int));
    assert((a + b).skip(a.len() as int) =~= b);
}

proof fn lemma_assoc(a: Seq<char>, b: Seq<char>, c: Seq<char>)
    ensures
        (a + b) + c == a + (b + c),
{
    assert((a + b) + c =~= a + (b + c));
}

proof fn lemma_shift(a: Seq<char>, k: Seq<char>, f: Seq<char>, r: Seq<char>)
    ensures
        ((a + k) + f) + r == a + ((k + f) + r),
{
    assert(((a + k) + f) + r =~= a + ((k + f) + r));
}

proof fn lemma_record_min_len(d: ClientDataV)
    ensures
        enc_record(d).len() >= 11,
{
    reveal(enc_record);
    reveal_strlit("{\"machine\":");
    assert(k_machine().len() == 11);
}

proof fn lemma_str_body_inv(x: Seq<char>, rest: Seq<char>)
    ensures
        p_str_body(esc(x) + seq!['"'] + rest) == Some((x, rest)),
    decreases x.len(),
{
    let s = esc(x) + seq!['"'] + rest;
    if x.len() == 0 {
        assert(esc(x) =~= Seq::<char>::empty());
        assert(s =~= seq!['"'] + rest);
        assert(s[0] == '"');
        assert(s.drop_first() =~= rest);
    } else {
        let c = x[0];
        let tail = x.drop_first();
        assert(esc(x) == esc_char(c) + esc(tail));
        if c == '"' || c == '\\' {
            assert(s[0] == '\\');
            assert(s[1] == c);
            assert(s.skip(2) =~= esc(tail) + seq!['"'] + rest);
            lemma_str_body_inv(tail, rest);
            assert(seq![s[1]] + tail =~= x);
        } else {
            assert(s[0] == c);
            assert(s.drop_first() =~= esc(tail) + seq!['"'] + rest);
            lemma_str_body_inv(tail, rest);
            assert(seq![s[0]] + tail =~= x);
        }
    }
}

proof fn lemma_field_inv(v: Option<Seq<char>>, rest: Seq<char>)
    ensures
        p_field(enc_field(v) + rest) == Some((v, rest)),
{
    match v {
        None => {
            let s = nul() + rest;
            assert(s[0] == 'n');
            lemma_expect_concat(nul(), rest);
        },
        Some(x) => {
            let s = enc_field(v) + rest;
            assert(s[0] == '"');
            assert(s.drop_first() =~= esc(x) + seq!['"'] + rest);
            lemma_str_body_inv(x, rest);
        },
    }
}

proof fn lemma_key_field_inv(key: Seq<char>, v: Option<Seq<char>>, rest: Seq<char>)
    ensures
        p_key_field(key + enc_field(v) + rest, key) == Some((v, rest)),
{
    assert(key + enc_field(v) + rest =~= key + (enc_field(v) + rest));
    lemma_expect_concat(key, enc_field(v) + rest);
    lemma_field_inv(v, rest);
}

proof fn lemma_record_inv(d: ClientDataV, rest: Seq<char>)
    ensures
        p_record(enc_record(d) + rest) == Some((d, rest)),
{
    reveal(enc_record);
    reveal(p_record);
    let r10 = k_end() + rest;
    let s10 = (k_note() + enc_field(d.note)) + r10;
    let s9 = (k_trimmer() + enc_field(d.trimmer)) + s10;
    let s8 = (k_distortion_rate() + enc_field(d.distortion_rate)) + s9;
    let s7 = (k_thickness() + enc_field(d.thickness)) + s8;
    let s6 = (k_count() + enc_field(d.count)) + s7;
    let s5 = (k_girth() + enc_field(d.girth)) + s6;
    let s4 = (k_pitch() + enc_field(d.pitch)) + s5;
    let s3 = (k_gears() + enc_field(d.gears)) + s4;
    let s2 = (k_width() + enc_field(d.width)) + s3;
    let s1 = (k_machine() + enc_field(d.machine)) + s2;
    let a1 = k_machine() + enc_field(d.machine);
    let a2 = (a1 + k_width()) + enc_field(d.width);
    let a3 = (a2 + k_gears()) + enc_field(d.gears);
    let a4 = (a3 + k_pitch()) + enc_field(d.pitch);
    let a5 = (a4 + k_girth()) + enc_field(d.girth);
    let a6 = (a5 + k_count()) + enc_field(d.count);
    let a7 = (a6 + k_thickness()) + enc_field(d.thickness);
    let a8 = (a7 + k_distortion_rate()) + enc_field(d.distortion_rate);
    let a9 = (a8 + k_trimmer()) + enc_field(d.trimmer);
    let a10 = (a9 + k_note()) + enc_field(d.note);
    assert(enc_record(d) == a10 + k_end());
    lemma_assoc(a10, k_end(), rest);
    lemma_shift(a9, k_note(), enc_field(d.note), r10);
    lemma_shift(a8, k_trimmer(), enc_field(d.trimmer), s10);
    lemma_shift(a7, k_distortion_rate(), enc_field(d.distortion_rate), s9);
    lemma_shift(a6, k_thickness(), enc_field(d.thickness), s8);
    lemma_shift(a5, k_count(), enc_field(d.count), s7);
    lemma_shift(a4, k_girth(), enc_field(d.girth), s6);
    lemma_shift(a3, k_pitch(), enc_field(d.pitch), s5);
    lemma_shift(a2, k_gears(), enc_field(d.gears), s4);
    lemma_shift(a1, k_width(), enc_field(d.width), s3);
    assert(enc_record(d) + rest == s1);
    lemma_key_field_inv(k_machine(), d.machine, s2);
    lemma_key_field_inv(k_width(), d.width, s3);
    lemma_key_field_inv(k_gears(), d.gears, s4);
    lemma_key_field_inv(k_pitch(), d.pitch, s5);
    lemma_key_field_inv(k_girth(), d.girth, s6);
    lemma_key_field_inv(k_count(), d.count, s7);
    lemma_key_field_inv(k_thickness(), d.thickness, s8);
    lemma_key_field_inv(k_distortion_rate(), d.distortion_rate, s9);
    lemma_key_field_inv(k_trimmer(), d.trimmer, s10);
    lemma_key_field_inv(k_note(), d.note, r10);
    lemma_expect_concat(k_end(), rest);
}

#[verifier::rlimit(100)]
proof fn lemma_records_inv(l: Seq<ClientDataV>, rest: Seq<char>)
    requires
        l.len() >= 1,
    ensures
        p_records(enc_records(l) + seq![']'] + rest) == Some((l, rest)),
    decreases l.len(),
{
    lemma_record_min_len(l[0]);
    let s = enc_records(l) + seq![']'] + rest;
    if l.len() == 1 {
        let r = seq![']'] + rest;
        assert(s =~= enc_record(l[0]) + r);
        lemma_record_inv(l[0], r);
        assert(r.len() < s.len());
        assert(r[0] == ']');
        assert(r.drop_first() =~= rest);
        assert(seq![l[0]] =~= l);
    } else {
        let tail = l.drop_first();
        let r = seq![','] + (enc_records(tail) + seq![']'] + rest);
        assert(s =~= enc_record(l[0]) + r);
        lemma_record_inv(l[0], r);
        assert(r.len() < s.len());
        assert(r[0] == ',');
        assert(r.drop_first() =~= enc_records(tail) + seq![']'] + rest);
        lemma_records_inv(tail, rest);
        assert(seq![l[0]] + tail =~= l);
    }
}

/// The parser inverts the encoder: decoding a stored list yields exactly
/// the records that were encoded, every present field with its value and
/// every absent field still absent.
pub proof fn lemma_list_round_trip(l: Seq<ClientDataV>)
    ensures
        p_list(enc_list(l)) == Some(l),
        lenient_list(enc_list(l)) == l,
{
    let s = enc_list(l);
    if l.len() == 0 {
        assert(enc_records(l) =~= Seq::<char>::empty());
        assert(s =~= seq!['[', ']']);
        assert(s.len() == 2 && s[0] == '[' && s[1] == ']');
    } else {
        lemma_record_min_len(l[0]);
        assert(s[0] == '[');
        assert(enc_records(l).len() >= 11);
        assert(s.len() > 2);
        assert(s.drop_first() =~= enc_records(l) + seq![']'] + Seq::<char>::empty());
        lemma_records_inv(l, Seq::empty());
    }
}

proof fn lemma_esc_snoc(s: Seq<char>, c: char)
    ensures
        esc(s.push(c)) == esc(s) + esc_char(c),
    decreases s.len(),
{
    if s.len() == 0 {
        assert(s.push(c)[0] == c);
        assert(s.push(c).drop_first() =~= Seq::<char>::empty());
        assert(esc(Seq::<char>::empty()) =~= Seq::<char>::empty());
        assert(esc(s) =~= Seq::<char>::empty());
        assert(esc(s.push(c)) =~= esc(s) + esc_char(c));
    } else {
        assert(s.push(c)[0] == s[0]);
        assert(s.push(c).drop_first() =~= s.drop_first().push(c));
        lemma_esc_snoc(s.drop_first(), c);
        assert(esc_char(s[0]) + (esc(s.drop_first()) + esc_char(c)) =~= (esc_char(s[0]) + esc(
            s.drop_first(),
        )) + esc_char(c));
    }
}

proof fn lemma_enc_records_snoc(l: Seq<ClientDataV>, d: ClientDataV)
    ensures
        enc_records(l.push(d)) == if l.len() == 0 {
            enc_record(d)
        } else {
            enc_records(l) + seq![','] + enc_record(d)
        },
    decreases l.len(),
{
    if l.len() == 0 {
        assert(l.push(d).len() == 1);
        assert(l.push(d)[0] == d);
    } else {
        assert(l.push(d)[0] == l[0]);
        assert(l.push(d).drop_first() =~= l.drop_first().push(d));
        lemma_enc_records_snoc(l.drop_first(), d);
        if l.len() == 1 {
            assert(l.drop_first().len() == 0);
        } else {
            assert(enc_record(l[0]) + seq![','] + (enc_records(l.drop_first()) + seq![',']
                + enc_record(d)) =~= (enc_record(l[0]) + seq![','] + enc_records(l.drop_first()))
                + seq![','] + enc_record(d));
        }
    }
}

fn append_lit(out: &mut String, lit: &str)
    ensures
        final(out)@ == old(out)@ + lit@,
{
    out.append(lit);
}

#[verifier::loop_isolation(false)]
fn append_esc(out: &mut String, s: &str)
    ensures
        final(out)@ == old(out)@ + esc(s@),
{
    let n = s.unicode_len();
    let mut k: usize = 0;
    assert(out@ =~= old(out)@ + esc(s@.take(0)));
    while k < n
        invariant
            k <= n,
            out@ == old(out)@ + esc(s@.take(k as int)),
        decreases n - k,
    {
        let c = s.get_char(k);
        if c == '"' || c == '\\' {
            out.append("\\");
            proof {
                reveal_strlit("\\");
            }
        }
        out.append(s.substring_char(k, k + 1));
        proof {
            assert(s@.subrange(k as int, k + 1) =~= seq![s@[k as int]]);
            lemma_esc_snoc(s@.take(k as int), s@[k as int]);
            assert(s@.take(k + 1) =~= s@.take(k as int).push(s@[k as int]));
            assert(out@ =~= old(out)@ + esc(s@.take(k + 1)));
        }
        k = k + 1;
    }
    assert(s@.take(n as int) =~= s@);
}

fn append_field(out: &mut String, v: &Option<String>)
    ensures
        final(out)@ == old(out)@ + enc_field(opt_str_view(*v)),
{
    match v {
        None => {
            out.append("null");
            proof {
                reveal_strlit("null");
                assert("null"@ =~= nul());
            }
        },
        Some(x) => {
            out.append("\"");
            append_esc(out, x.as_str());
            out.append("\"");
            proof {
                reveal_strlit("\"");
                assert("\""@ =~= seq!['"']);
                assert(out@ =~= old(out)@ + (seq!['"'] + esc(x@) + seq!['"']));
            }
        },
    }
}

fn append_record(out: &mut String, d: &ClientData)
    ensures
        final(out)@ == old(out)@ + enc_record(d@),
{
    out.append("{\"machine\":");
    append_field(out, &d.machine);
    out.append(",\"width\":");
    append_field(out, &d.width);
    out.append(",\"gears\":");
    append_field(out, &d.gears);
    out.append(",\"pitch\":");
    append_field(out, &d.pitch);
    out.append(",\"girth\":");
    append_field(out, &d.girth);
    out.append(",\"count\":");
    append_field(out, &d.count);
    out.append(",\"thickness\":");
    append_field(out, &d.thickness);
    out.append(",\"distortion_rate\":");
    append_field(out, &d.distortion_rate);
    out.append(",\"trimmer\":");
    append_field(out, &d.trimmer);
    out.append(",\"note\":");
    append_field(out, &d.note);
    out.append("}");
    proof {
        reveal(enc_record);
        assert(out@ =~= old(out)@ + enc_record(d@));
    }
}

/// Serializes a list of measurement records into its stored text.
#[verifier::loop_isolation(false)]
pub fn encode_client_data_list(v: &Vec<ClientData>) -> (r: String)
    ensures
        r@ == enc_list(data_views(v@)),
{
    let mut out = String::new();
    out.append("[");
    proof {
        reveal_strlit("[");
        assert(out@ =~= seq!['['] + enc_records(data_views(v@.take(0))));
    }
    let mut i: usize = 0;
    while i < v.len()
        invariant
            i <= v@.len(),
            out@ == seq!['['] + enc_records(data_views(v@.take(i as int))),
        decreases v@.len() - i,
    {
        if i > 0 {
            out.append(",");
            proof {
                reveal_strlit(",");
            }
        }
        append_record(&mut out, &v[i]);
        proof {
            lemma_enc_records_snoc(data_views(v@.take(i as int)), v@[i as int]@);
            assert(data_views(v@.take(i + 1)) =~= data_views(v@.take(i as int)).push(
                v@[i as int]@,
            ));
            if i == 0 {
                assert(data_views(v@.take(0)).len() == 0);
                assert(out@ =~= seq!['['] + enc_records(data_views(v@.take(i + 1))));
            } else {
                assert(data_views(v@.take(i as int)).len() > 0);
                assert(out@ =~= seq!['['] + enc_records(data_views(v@.take(i + 1))));
            }
        }
        i = i + 1;
    }
    out.append("]");
    proof {
        reveal_strlit("]");
        assert(v@.take(v@.len() as int) =~= v@);
        assert(out@ =~= enc_list(data_views(v@)));
    }
    out
}

/// Serializes an optional list as the customer table stores it: an absent
/// list is written `null`.
pub fn encode_opt_client_data(v: &Option<Vec<ClientData>>) -> (r: String)
    ensures
        r@ == enc_opt_list(crate::data::opt_data_views(*v)),
{
    match v {
        Some(l) => encode_client_data_list(l),
        None => {
            let r = String::from_str("null");
            proof {
                reveal_strlit("null");
                assert(r@ =~= nul());
            }
            r
        },
    }
}

/// Relation carried through the string-body scan: parsing the original
/// suffix yields what parsing the current suffix yields, with the already
/// unescaped characters in front.
spec fn str_body_rel(orig: Seq<char>, acc: Seq<char>, cur: Seq<char>) -> bool {
    p_str_body(orig) == match p_str_body(cur) {
        Some(br) => Some((acc + br.0, br.1)),
        None => None::<(Seq<char>, Seq<char>)>,
    }
}

#[verifier::loop_isolation(false)]
fn scan_str_body(s: &str, n: usize, i: usize) -> (r: Option<(String, usize)>)
    requires
        n == s@.len(),
        i <= n,
    ensures
        match r {
            Some(p) => i <= p.1 <= n && p_str_body(s@.skip(i as int)) == Some(
                (p.0@, s@.skip(p.1 as int)),
            ),
            None => p_str_body(s@.skip(i as int)) is None,
        },
{
    let mut out = String::new();
    let mut j: usize = i;
    proof {
        let o = s@.skip(i as int);
        match p_str_body(o) {
            Some(br) => {
                assert(Seq::<char>::empty() + br.0 =~= br.0);
            },
            None => {},
        }
        assert(str_body_rel(o, out@, s@.skip(j as int)));
    }
    while j < n
        invariant
            i <= j <= n,
            str_body_rel(s@.skip(i as int), out@, s@.skip(j as int)),
        decreases n - j,
    {
        let c = s.get_char(j);
        proof {
            assert(s@.skip(j as int)[0] == c);
        }
        if c == '"' {
            proof {
                assert(s@.skip(j as int).drop_first() =~= s@.skip(j + 1));
                assert(out@ + Seq::<char>::empty() =~= out@);
            }
            return Some((out, j + 1));
        } else if c == '\\' {
            if j + 1 < n {
                let c2 = s.get_char(j + 1);
                if c2 == '"' || c2 == '\\' {
                    let ghost out0 = out@;
                    out.append(s.substring_char(j + 1, j + 2));
                    proof {
                        let o = s@.skip(i as int);
                        let cur = s@.skip(j as int);
                        assert(cur[1] == c2);
                        assert(cur.skip(2) =~= s@.skip(j + 2));
                        assert(s@.subrange(j + 1, j + 2) =~= seq![c2]);
                        assert(out@ =~= out0 + seq![c2]);
                        match p_str_body(s@.skip(j + 2)) {
                            Some(br) => {
                                assert(p_str_body(cur) == Some((seq![c2] + br.0, br.1)));
                                assert(out0 + (seq![c2] + br.0) =~= out@ + br.0);
                            },
                            None => {},
                        }
                        assert(str_body_rel(o, out@, s@.skip(j + 2)));
                    }
                    j = j + 2;
                } else {
                    proof {
                        let cur = s@.skip(j as int);
                        assert(cur[1] == c2);
                        assert(p_str_body(cur) is None);
                    }
                    return None;
                }
            } else {
                proof {
                    let cur = s@.skip(j as int);
                    assert(cur.len() == 1);
                    assert(p_str_body(cur) is None);
                }
                return None;
            }
        } else {
            let ghost out0 = out@;
            out.append(s.substring_char(j, j + 1));
            proof {
                let o = s@.skip(i as int);
                let cur = s@.skip(j as int);
                assert(cur.drop_first() =~= s@.skip(j + 1));
                assert(s@.subrange(j as int, j + 1) =~= seq![c]);
                assert(out@ =~= out0 + seq![c]);
                match p_str_body(s@.skip(j + 1)) {
                    Some(br) => {
                        assert(p_str_body(cur) == Some((seq![c] + br.0, br.1)));
                        assert(out0 + (seq![c] + br.0) =~= out@ + br.0);
                    },
                    None => {},
                }
                assert(str_body_rel(o, out@, s@.skip(j + 1)));
            }
            j = j + 1;
        }
    }
    proof {
        assert(s@.skip(j as int).len() == 0);
        assert(p_str_body(s@.skip(j as int)) is None);
    }
    None
}

#[verifier::loop_isolation(false)]
fn scan_lit(s: &str, n: usize, i: usize, lit: &str) -> (r: Option<usize>)
    requires
        n == s@.len(),
        i <= n,
    ensures
        match r {
            Some(j) => i <= j <= n && expect(s@.skip(i as int), lit@) == Some(s@.skip(j as int)),
            None => expect(s@.skip(i as int), lit@) is None,
        },
{
    let m = lit.unicode_len();
    if n - i < m {
        proof {
            assert(s@.skip(i as int).len() < lit@.len());
            assert(!lit@.is_prefix_of(s@.skip(i as int)));
        }
        return None;
    }
    let mut k: usize = 0;
    while k < m
        invariant
            k <= m,
            m <= n - i,
            forall|t: int| 0 <= t < k ==> s@[i + t] == lit@[t],
        decreases m - k,
    {
        if s.get_char(i + k) != lit.get_char(k) {
            proof {
                let cur = s@.skip(i as int);
                assert(cur[k as int] == s@[i + k]);
                assert(lit@.is_prefix_of(cur) ==> lit@[k as int] == cur.subrange(
                    0,
                    lit@.len() as int,
                )[k as int]);
                assert(!lit@.is_prefix_of(cur));
            }
            return None;
        }
        k = k + 1;
    }
    proof {
        let cur = s@.skip(i as int);
        assert(lit@ =~= cur.subrange(0, lit@.len() as int));
        assert(cur.skip(m as int) =~= s@.skip(i + m));
    }
    Some(i + m)
}

fn scan_field(s: &str, n: usize, i: usize) -> (r: Option<(Option<String>, usize)>)
    requires
        n == s@.len(),
        i <= n,
    ensures
        match r {
            Some(p) => i <= p.1 <= n && p_field(s@.skip(i as int)) == Some(
                (opt_str_view(p.0), s@.skip(p.1 as int)),
            ),
            None => p_field(s@.skip(i as int)) is None,
        },
{
    proof {
        reveal_strlit("null");
        assert("null"@ =~= nul());
    }
    if i < n && s.get_char(i) == '"' {
        proof {
            assert(s@.skip(i as int)[0] == '"');
            assert(s@.skip(i as int).drop_first() =~= s@.skip(i + 1));
        }
        match scan_str_body(s, n, i + 1) {
            Some(p) => Some((Some(p.0), p.1)),
            None => None,
        }
    } else {
        proof {
            if i < n {
                assert(s@.skip(i as int)[0] == s@[i as int]);
            }
        }
        match scan_lit(s, n, i, "null") {
            Some(j) => Some((None, j)),
            None => None,
        }
    }
}

fn scan_key_field(s: &str, n: usize, i: usize, key: &str) -> (r: Option<(Option<String>, usize)>)
    requires
        n == s@.len(),
        i <= n,
    ensures
        match r {
            Some(p) => i <= p.1 <= n && p_key_field(s@.skip(i as int), key@) == Some(
                (opt_str_view(p.0), s@.skip(p.1 as int)),
            ),
            None => p_key_field(s@.skip(i as int), key@) is None,
        },
{
    match scan_lit(s, n, i, key) {
        Some(j) => scan_field(s, n, j),
        None => None,
    }
}

fn scan_record(s: &str, n: usize, i: usize) -> (r: Option<(ClientData, usize)>)
    requires
        n == s@.len(),
        i <= n,
    ensures
        match r {
            Some(p) => i <= p.1 <= n && p_record(s@.skip(i as int)) == Some(
                (p.0@, s@.skip(p.1 as int)),
            ),
            None => p_record(s@.skip(i as int)) is None,
        },
{
    proof {
        reveal(p_record);
    }
    let f1 = match scan_key_field(s, n, i, "{\"machine\":") {
        Some(p) => p,
        None => {
            return None;
        },
    };
    let f2 = match scan_key_field(s, n, f1.1, ",\"width\":") {
        Some(p) => p,
        None => {
            return None;
        },
    };
    let f3 = match scan_key_field(s, n, f2.1, ",\"gears\":") {
        Some(p) => p,
        None => {
            return None;
        },
    };
    let f4 = match scan_key_field(s, n, f3.1, ",\"pitch\":") {
        Some(p) => p,
        None => {
            return None;
        },
    };
    let f5 = match scan_key_field(s, n, f4.1, ",\"girth\":") {
        Some(p) => p,
        None => {
            return None;
        },
    };
    let f6 = match scan_key_field(s, n, f5.1, ",\"count\":") {
        Some(p) => p,
        None => {
            return None;
        },
    };
    let f7 = match scan_key_field(s, n, f6.1, ",\"thickness\":") {
        Some(p) => p,
        None => {
            return None;
        },
    };
    let f8 = match scan_key_field(s, n, f7.1, ",\"distortion_rate\":") {
        Some(p) => p,
        None => {
            return None;
        },
    };
    let f9 = match scan_key_field(s, n, f8.1, ",\"trimmer\":") {
        Some(p) => p,
        None => {
            return None;
        },
    };
    let f10 = match scan_key_field(s, n, f9.1, ",\"note\":") {
        Some(p) => p,
        None => {
            return None;
        },
    };
    let j = match scan_lit(s, n, f10.1, "}") {
        Some(j) => j,
        None => {
            return None;
        },
    };
    let d = ClientData {
        machine: f1.0,
        width: f2.0,
        gears: f3.0,
        pitch: f4.0,
        girth: f5.0,
        count: f6.0,
        thickness: f7.0,
        distortion_rate: f8.0,
        trimmer: f9.0,
        note: f10.0,
    };
    Some((d, j))
}

#[verifier::loop_isolation(false)]
fn scan_records(s: &str, n: usize, i: usize) -> (r: Option<(Vec<ClientData>, usize)>)
    requires
        n == s@.len(),
        i <= n,
    ensures
        match r {
            Some(p) => i <= p.1 <= n && p_records(s@.skip(i as int)) == Some(
                (data_views(p.0@), s@.skip(p.1 as int)),
            ),
            None => p_records(s@.skip(i as int)) is None,
        },
    decreases n - i,
{
    let first = match scan_record(s, n, i) {
        Some(p) => p,
        None => {
            return None;
        },
    };
    let j = first.1;
    if j <= i {
        proof {
            assert(s@.skip(j as int).len() >= s@.skip(i as int).len());
        }
        return None;
    }
    proof {
        assert(s@.skip(j as int).len() < s@.skip(i as int).len());
    }
    if j < n && s.get_char(j) == ']' {
        proof {
            assert(s@.skip(j as int)[0] == ']');
            assert(s@.skip(j as int).drop_first() =~= s@.skip(j + 1));
        }
        let mut v: Vec<ClientData> = Vec::new();
        v.push(first.0);
        proof {
            assert(data_views(v@) =~= seq![v@[0]@]);
        }
        return Some((v, j + 1));
    }
    if j < n && s.get_char(j) == ',' {
        proof {
            assert(s@.skip(j as int)[0] == ',');
            assert(s@.skip(j as int).drop_first() =~= s@.skip(j + 1));
        }
        match scan_records(s, n, j + 1) {
            Some(p) => {
                let mut rest = p.0;
                let k = p.1;
                let mut v: Vec<ClientData> = Vec::new();
                v.push(first.0);
                v.append(&mut rest);
                proof {
                    assert(data_views(v@) =~= seq![v@[0]@] + data_views(p.0@));
                }
                return Some((v, k));
            },
            None => {
                return None;
            },
        }
    }
    proof {
        let r = s@.skip(j as int);
        if j < n {
            assert(r[0] == s@[j as int]);
        } else {
            assert(r.len() == 0);
        }
    }
    None
}

/// Strictly decodes a stored list; a text that is not a well-formed
/// encoding is rejected.
pub fn decode_client_data_list(s: &str) -> (r: Result<Vec<ClientData>, DBError>)
    ensures
        match r {
            Ok(v) => p_list(s@) == Some(data_views(v@)),
            Err(e) => p_list(s@) is None && e@.kind == ErrorKind::Serialization,
        },
{
    let n = s.unicode_len();
    if n == 2 && s.get_char(0) == '[' && s.get_char(1) == ']' {
        let v: Vec<ClientData> = Vec::new();
        proof {
            assert(data_views(v@) =~= Seq::<ClientDataV>::empty());
        }
        return Ok(v);
    }
    if n >= 1 && s.get_char(0) == '[' {
        proof {
            assert(s@.drop_first() =~= s@.skip(1));
        }
        match scan_records(s, n, 1) {
            Some(p) => {
                if p.1 == n {
                    proof {
                        assert(s@.skip(n as int).len() == 0);
                    }
                    return Ok(p.0);
                }
                return Err(
                    DBError::new(
                        ErrorKind::Serialization,
                        String::from_str("stored client data is malformed"),
                    ),
                );
            },
            None => {
                return Err(
                    DBError::new(
                        ErrorKind::Serialization,
                        String::from_str("stored client data is malformed"),
                    ),
                );
            },
        }
    }
    Err(DBError::new(ErrorKind::Serialization, String::from_str("stored client data is malformed")))
}

/// Leniently decodes a stored column: a malformed text degrades to the
/// empty list instead of failing.
pub fn decode_client_data_lenient(s: &str) -> (r: Vec<ClientData>)
    ensures
        data_views(r@) == lenient_list(s@),
{
    match decode_client_data_list(s) {
        Ok(v) => v,
        Err(_) => {
            let v: Vec<ClientData> = Vec::new();
            proof {
                assert(data_views(v@) =~= Seq::<ClientDataV>::empty());
            }
            v
        },
    }
}

} // verus!
