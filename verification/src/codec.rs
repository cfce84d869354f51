use vstd::prelude::*;

use crate::config::{ConfigV, ModConfig, Version};
use crate::errors::Error;
use crate::text::{chars_string, dec_digits, push_all, str_chars, u16_chars};

verus! {

// ------------------------------------------------------------------
// String escaping
// ------------------------------------------------------------------

/// How one character appears inside a JSON string literal.
pub open spec fn esc_char(c: char) -> Seq<char> {
    if c == '"' {
        seq!['\\', '"']
    } else if c == '\\' {
        seq!['\\', '\\']
    } else if c == '\n' {
        seq!['\\', 'n']
    } else if c == '\r' {
        seq!['\\', 'r']
    } else if c == '\t' {
        seq!['\\', 't']
    } else {
        seq![c]
    }
}

pub open spec fn escaped(s: Seq<char>) -> Seq<char>
    decreases s.len(),
{
    if s.len() == 0 {
        Seq::<char>::empty()
    } else {
        esc_char(s[0]) + escaped(s.skip(1))
    }
}

/// A quoted, escaped JSON string literal.
pub open spec fn quoted(s: Seq<char>) -> Seq<char> {
    seq!['"'] + escaped(s) + seq!['"']
}

pub proof fn lemma_escaped_push(s: Seq<char>, c: char)
    ensures
        escaped(s.push(c)) == escaped(s) + esc_char(c),
    decreases s.len(),
{
    if s.len() == 0 {
        assert(s.push(c)[0] == c);
        assert(s.push(c).skip(1) =~= Seq::<char>::empty());
        assert(escaped(s.push(c)) == esc_char(c) + escaped(Seq::<char>::empty()));
        assert(esc_char(c) + Seq::<char>::empty() =~= esc_char(c));
        assert(escaped(s) + esc_char(c) =~= esc_char(c));
    } else {
        assert(s.push(c)[0] == s[0]);
        assert(s.push(c).skip(1) =~= s.skip(1).push(c));
        lemma_escaped_push(s.skip(1), c);
        assert(escaped(s.push(c)) == esc_char(s[0]) + (escaped(s.skip(1)) + esc_char(c)));
        assert(esc_char(s[0]) + (escaped(s.skip(1)) + esc_char(c)) =~= (esc_char(s[0]) + escaped(
            s.skip(1),
        )) + esc_char(c));
    }
}

/// Appends `s` as a quoted, escaped JSON string literal.
fn push_quoted(out: &mut Vec<char>, s: &str)
    ensures
        final(out)@ == old(out)@ + quoted(s@),
{
    let cs = str_chars(s);
    out.push('"');
    let ghost base = out@;
    let mut k: usize = 0;
    proof {
        assert(cs@.take(0) =~= Seq::<char>::empty());
        assert(out@ =~= base + escaped(cs@.take(0)));
    }
    while k < cs.len()
        invariant
            k <= cs@.len(),
            out@ == base + escaped(cs@.take(k as int)),
            base == old(out)@ + seq!['"'],
        decreases cs.len() - k,
    {
        let c = cs[k];
        if c == '"' {
            out.push('\\');
            out.push('"');
        } else if c == '\\' {
            out.push('\\');
            out.push('\\');
        } else if c == '\n' {
            out.push('\\');
            out.push('n');
        } else if c == '\r' {
            out.push('\\');
            out.push('r');
        } else if c == '\t' {
            out.push('\\');
            out.push('t');
        } else {
            out.push(c);
        }
        proof {
            lemma_escaped_push(cs@.take(k as int), c);
            assert(cs@.take(k + 1) =~= cs@.take(k as int).push(c));
            assert(out@ =~= base + escaped(cs@.take(k + 1)));
        }
        k = k + 1;
    }
    out.push('"');
    proof {
        assert(cs@.take(cs@.len() as int) =~= cs@);
        assert(out@ =~= old(out)@ + quoted(s@));
    }
}

// ------------------------------------------------------------------
// Writing the descriptor
// ------------------------------------------------------------------

/// The persisted descriptor document: one JSON object whose field names
/// and nesting are the compatibility contract between the create and
/// build pipelines.
pub open spec fn version_json(ver: Version) -> Seq<char> {
    "{"@ + "\"major\""@ + ":"@ + dec_digits(ver.major as nat) + ","@ + "\"minor\""@ + ":"@
        + dec_digits(ver.minor as nat) + ","@ + "\"revision\""@ + ":"@ + dec_digits(
        ver.revision as nat,
    ) + "}"@
}

pub open spec fn field_json(key: Seq<char>, val: Seq<char>) -> Seq<char> {
    ","@ + key + ":"@ + quoted(val)
}

pub open spec fn authors_json(a: Option<Seq<char>>) -> Seq<char> {
    ","@ + "\"authors\""@ + ":"@ + (match a {
        Some(a) => quoted(a),
        None => "null"@,
    }) + "}"@
}

pub open spec fn config_json_spec(v: ConfigV) -> Seq<char> {
    "{"@ + "\"mc_version\""@ + ":"@ + version_json(v.mc_version) + field_json(
        "\"mod_version\""@,
        v.mod_version,
    ) + field_json("\"display_name\""@, v.display_name) + field_json(
        "\"description\""@,
        v.description,
    ) + field_json("\"mod_id\""@, v.mod_id) + authors_json(v.authors)
}

/// Serializes a descriptor to its JSON document.
#[verifier::rlimit(100)]
pub fn config_to_json(c: &ModConfig) -> (r: String)
    ensures
        r@ == config_json_spec(c@),
{
    let mut out: Vec<char> = Vec::new();
    push_lit(&mut out, "{");
    push_lit(&mut out, "\"mc_version\"");
    push_lit(&mut out, ":");
    push_lit(&mut out, "{");
    push_lit(&mut out, "\"major\"");
    push_lit(&mut out, ":");
    let d1 = u16_chars(c.mc_version.major);
    push_all(&mut out, &d1);
    push_lit(&mut out, ",");
    push_lit(&mut out, "\"minor\"");
    push_lit(&mut out, ":");
    let d2 = u16_chars(c.mc_version.minor);
    push_all(&mut out, &d2);
    push_lit(&mut out, ",");
    push_lit(&mut out, "\"revision\"");
    push_lit(&mut out, ":");
    let d3 = u16_chars(c.mc_version.revision);
    push_all(&mut out, &d3);
    push_lit(&mut out, "}");
    proof {
        assert(out@ =~= "{"@ + "\"mc_version\""@ + ":"@ + version_json(c@.mc_version));
    }
    let ghost h1 = out@;
    push_lit(&mut out, ",");
    push_lit(&mut out, "\"mod_version\"");
    push_lit(&mut out, ":");
    push_quoted(&mut out, c.mod_version.as_str());
    proof {
        assert(out@ =~= h1 + field_json("\"mod_version\""@, c@.mod_version));
    }
    let ghost h2 = out@;
    push_lit(&mut out, ",");
    push_lit(&mut out, "\"display_name\"");
    push_lit(&mut out, ":");
    push_quoted(&mut out, c.display_name.as_str());
    proof {
        assert(out@ =~= h2 + field_json("\"display_name\""@, c@.display_name));
    }
    let ghost h3 = out@;
    push_lit(&mut out, ",");
    push_lit(&mut out, "\"description\"");
    push_lit(&mut out, ":");
    push_quoted(&mut out, c.description.as_str());
    proof {
        assert(out@ =~= h3 + field_json("\"description\""@, c@.description));
    }
    let ghost h4 = out@;
    push_lit(&mut out, ",");
    push_lit(&mut out, "\"mod_id\"");
    push_lit(&mut out, ":");
    push_quoted(&mut out, c.mod_id.as_str());
    proof {
        assert(out@ =~= h4 + field_json("\"mod_id\""@, c@.mod_id));
    }
    let ghost h5 = out@;
    push_lit(&mut out, ",");
    push_lit(&mut out, "\"authors\"");
    push_lit(&mut out, ":");
    match &c.authors {
        Some(a) => {
            push_quoted(&mut out, a.as_str());
        },
        None => {
            push_lit(&mut out, "null");
        },
    }
    push_lit(&mut out, "}");
    proof {
        assert(out@ =~= h5 + authors_json(c@.authors));
        assert(out@ =~= config_json_spec(c@));
    }
    chars_string(&out)
}

/// Appends a literal's characters.
fn push_lit(out: &mut Vec<char>, lit: &str)
    ensures
        final(out)@ == old(out)@ + lit@,
{
    let v = str_chars(lit);
    push_all(out, &v);
}

// ------------------------------------------------------------------
// Parsing the descriptor
// ------------------------------------------------------------------

/// The inverse of `esc_char`'s two-character escapes.
pub open spec fn unesc(c: char) -> Option<char> {
    if c == '"' {
        Some('"')
    } else if c == '\\' {
        Some('\\')
    } else if c == 'n' {
        Some('\n')
    } else if c == 'r' {
        Some('\r')
    } else if c == 't' {
        Some('\t')
    } else {
        None
    }
}

/// Consumes an exact literal at position `i`.
pub open spec fn sp_lit(s: Seq<char>, i: int, lit: Seq<char>) -> Option<int> {
    if crate::text::match_at(s, lit, i) {
        Some(i + lit.len() as int)
    } else {
        None
    }
}

/// The end of the digit run starting at `i`.
pub open spec fn digits_end(s: Seq<char>, i: int) -> int
    decreases s.len() - i,
{
    if 0 <= i < s.len() && crate::text::is_digit(s[i]) {
        digits_end(s, i + 1)
    } else {
        i
    }
}

/// Consumes a decimal `u16` at position `i`.
pub open spec fn sp_u16(s: Seq<char>, i: int) -> Option<(u16, int)> {
    let e = digits_end(s, i);
    match crate::text::parse_u16_spec(s.subrange(i, e)) {
        Some(n) => Some((n, e)),
        None => None,
    }
}

/// Consumes the body of a string literal (after the opening quote) up to
/// and including the closing quote, undoing the escapes.
pub open spec fn sp_qstr_body(s: Seq<char>, i: int) -> Option<(Seq<char>, int)>
    decreases s.len() - i,
{
    if i < 0 || i >= s.len() {
        None
    } else if s[i] == '"' {
        Some((Seq::<char>::empty(), i + 1))
    } else if s[i] == '\\' {
        if i + 1 < s.len() && unesc(s[i + 1]) is Some {
            match sp_qstr_body(s, i + 2) {
                Some((t, e)) => Some((seq![unesc(s[i + 1]).unwrap()] + t, e)),
                None => None,
            }
        } else {
            None
        }
    } else {
        match sp_qstr_body(s, i + 1) {
            Some((t, e)) => Some((seq![s[i]] + t, e)),
            None => None,
        }
    }
}

/// Consumes a quoted string literal at position `i`.
pub open spec fn sp_qstr(s: Seq<char>, i: int) -> Option<(Seq<char>, int)> {
    if 0 <= i < s.len() && s[i] == '"' {
        sp_qstr_body(s, i + 1)
    } else {
        None
    }
}

/// A JSON whitespace character.
pub open spec fn is_ws(c: char) -> bool {
    c == ' ' || c == '\t' || c == '\n' || c == '\r'
}

/// The first non-whitespace position at or after `i`.
pub open spec fn ws_end(s: Seq<char>, i: int) -> int
    decreases s.len() - i,
{
    if 0 <= i < s.len() && is_ws(s[i]) {
        ws_end(s, i + 1)
    } else {
        i
    }
}

/// Consumes whitespace, then the exact literal.
pub open spec fn sp_sym(s: Seq<char>, i: int, lit: Seq<char>) -> Option<int> {
    sp_lit(s, ws_end(s, i), lit)
}

/// Consumes whitespace, then a decimal `u16`.
pub open spec fn sp_u16_t(s: Seq<char>, i: int) -> Option<(u16, int)> {
    sp_u16(s, ws_end(s, i))
}

/// Consumes whitespace, then a quoted string literal.
pub open spec fn sp_qstr_t(s: Seq<char>, i: int) -> Option<(Seq<char>, int)> {
    sp_qstr(s, ws_end(s, i))
}

/// Consumes the `mc_version` object: `{ "major": M, "minor": N, "revision": R }`.
pub open spec fn sp_version_obj(s: Seq<char>, i: int) -> Option<(Version, int)> {
    match sp_sym(s, i, "{"@) {
        None => None,
        Some(p1) => match sp_sym(s, p1, "\"major\""@) {
            None => None,
            Some(p2) => match sp_sym(s, p2, ":"@) {
                None => None,
                Some(p3) => match sp_u16_t(s, p3) {
                    None => None,
                    Some((major, p4)) => match sp_sym(s, p4, ","@) {
                        None => None,
                        Some(p5) => match sp_sym(s, p5, "\"minor\""@) {
                            None => None,
                            Some(p6) => match sp_sym(s, p6, ":"@) {
                                None => None,
                                Some(p7) => match sp_u16_t(s, p7) {
                                    None => None,
                                    Some((minor, p8)) => match sp_sym(s, p8, ","@) {
                                        None => None,
                                        Some(p9) => match sp_sym(s, p9, "\"revision\""@) {
                                            None => None,
                                            Some(p10) => match sp_sym(s, p10, ":"@) {
                                                None => None,
                                                Some(p11) => match sp_u16_t(s, p11) {
                                                    None => None,
                                                    Some((revision, p12)) => match sp_sym(
                                                        s,
                                                        p12,
                                                        "}"@,
                                                    ) {
                                                        None => None,
                                                        Some(p13) => Some(
                                                            (Version { major, minor, revision }, p13),
                                                        ),
                                                    },
                                                },
                                            },
                                        },
                                    },
                                },
                            },
                        },
                    },
                },
            },
        },
    }
}

/// Consumes `, "<key>" : "<string>"`.
pub open spec fn sp_field_str(s: Seq<char>, i: int, key: Seq<char>) -> Option<(Seq<char>, int)> {
    match sp_sym(s, i, ","@) {
        None => None,
        Some(p1) => match sp_sym(s, p1, key) {
            None => None,
            Some(p2) => match sp_sym(s, p2, ":"@) {
                None => None,
                Some(p3) => sp_qstr_t(s, p3),
            },
        },
    }
}

/// What `parse_config` accepts: the descriptor document of the
/// persistence contract — the fields in their canonical order, with any
/// whitespace between tokens — ending at the end of the text.
pub open spec fn config_parse_spec(s: Seq<char>) -> Option<ConfigV> {
    match sp_sym(s, 0, "{"@) {
        None => None,
        Some(p1) => match sp_sym(s, p1, "\"mc_version\""@) {
            None => None,
            Some(p2) => match sp_sym(s, p2, ":"@) {
                None => None,
                Some(p3) => match sp_version_obj(s, p3) {
                    None => None,
                    Some((mc_version, p4)) => match sp_field_str(s, p4, "\"mod_version\""@) {
                        None => None,
                        Some((mod_version, p5)) => config_parse_tail(s, p5, mc_version, mod_version),
                    },
                },
            },
        },
    }
}

/// The remaining fields of the document, after `mod_version`.
pub open spec fn config_parse_tail(
    s: Seq<char>,
    p: int,
    mc_version: Version,
    mod_version: Seq<char>,
) -> Option<ConfigV> {
    match sp_field_str(s, p, "\"display_name\""@) {
        None => None,
        Some((display_name, p1)) => match sp_field_str(s, p1, "\"description\""@) {
            None => None,
            Some((description, p2)) => match sp_field_str(s, p2, "\"mod_id\""@) {
                None => None,
                Some((mod_id, p3)) => config_parse_authors(
                    s,
                    p3,
                    ConfigV {
                        mc_version,
                        mod_version,
                        display_name,
                        description,
                        mod_id,
                        authors: None,
                    },
                ),
            },
        },
    }
}

/// The authors field — a string or `null` — and the document's end.
pub open spec fn config_parse_authors(s: Seq<char>, p: int, base: ConfigV) -> Option<ConfigV> {
    match sp_sym(s, p, ","@) {
        None => None,
        Some(p1) => match sp_sym(s, p1, "\"authors\""@) {
            None => None,
            Some(p2) => match sp_sym(s, p2, ":"@) {
                None => None,
                Some(p3) => match sp_sym(s, p3, "null"@) {
                    Some(p4) => match sp_sym(s, p4, "}"@) {
                        None => None,
                        Some(e) => if ws_end(s, e) == s.len() {
                            Some(base)
                        } else {
                            None
                        },
                    },
                    None => match sp_qstr_t(s, p3) {
                        None => None,
                        Some((a, p4)) => match sp_sym(s, p4, "}"@) {
                            None => None,
                            Some(e) => if ws_end(s, e) == s.len() {
                                Some(ConfigV { authors: Some(a), ..base })
                            } else {
                                None
                            },
                        },
                    },
                },
            },
        },
    }
}

// ------------------------------------------------------------------
// The document parses back to what was written
// ------------------------------------------------------------------

proof fn lemma_lit_here(s: Seq<char>, i: int, lit: Seq<char>, rest: Seq<char>)
    requires
        0 <= i <= s.len(),
        s.skip(i) == lit + rest,
    ensures
        sp_lit(s, i, lit) == Some(i + lit.len() as int),
        i + lit.len() <= s.len(),
        s.skip(i + lit.len() as int) == rest,
{
    broadcast use vstd::seq_lib::group_seq_properties;

    assert(s.skip(i).len() == lit.len() + rest.len());
    assert(s.skip(i).len() == s.len() - i);
    assert(s.subrange(i, i + lit.len() as int) =~= lit) by {
        assert forall|k: int| 0 <= k < lit.len() implies s.subrange(i, i + lit.len() as int)[k]
            == lit[k] by {
            assert(s.skip(i)[k] == (lit + rest)[k]);
        }
    }
    assert(crate::text::match_at(s, lit, i));
    assert(s.skip(i + lit.len() as int) =~= rest) by {
        assert forall|k: int| 0 <= k < rest.len() implies s.skip(i + lit.len() as int)[k]
            == rest[k] by {
            assert(s.skip(i)[lit.len() + k] == (lit + rest)[lit.len() + k]);
        }
    }
}

proof fn lemma_digits_end_here(s: Seq<char>, i: int, d: Seq<char>, rest: Seq<char>)
    requires
        0 <= i <= s.len(),
        s.skip(i) == d + rest,
        crate::text::all_digits(d),
        rest.len() > 0,
        !crate::text::is_digit(rest[0]),
    ensures
        digits_end(s, i) == i + d.len(),
    decreases d.len(),
{
    broadcast use vstd::seq_lib::group_seq_properties;

    assert(s.skip(i).len() == d.len() + rest.len());
    assert(s.skip(i).len() == s.len() - i);
    if d.len() == 0 {
        assert(s.skip(i)[0] == rest[0]);
        assert(s[i] == rest[0]);
    } else {
        assert(s.skip(i)[0] == d[0]);
        assert(s[i] == d[0]);
        assert(crate::text::is_digit(s[i]));
        assert(s.skip(i + 1) =~= d.skip(1) + rest) by {
            assert forall|k: int| 0 <= k < s.len() - i - 1 implies s.skip(i + 1)[k] == (d.skip(1)
                + rest)[k] by {
                assert(s.skip(i)[k + 1] == (d + rest)[k + 1]);
            }
        }
        lemma_digits_end_here(s, i + 1, d.skip(1), rest);
    }
}

proof fn lemma_u16_here(s: Seq<char>, i: int, n: u16, rest: Seq<char>)
    requires
        0 <= i <= s.len(),
        s.skip(i) == dec_digits(n as nat) + rest,
        rest.len() > 0,
        !crate::text::is_digit(rest[0]),
    ensures
        sp_u16(s, i) == Some((n, i + dec_digits(n as nat).len() as int)),
        i + dec_digits(n as nat).len() <= s.len(),
        s.skip(i + dec_digits(n as nat).len() as int) == rest,
{
    let d = dec_digits(n as nat);
    crate::text::lemma_dec_digits_props(n as nat);
    lemma_digits_end_here(s, i, d, rest);
    lemma_lit_here(s, i, d, rest);
    assert(s.subrange(i, i + d.len() as int) =~= s.skip(i).take(d.len() as int));
    assert(s.skip(i).take(d.len() as int) =~= d);
    assert(crate::text::parse_u16_spec(s.subrange(i, digits_end(s, i))) == Some(n));
}

proof fn lemma_esc_char_cases(c: char)
    ensures
        esc_char(c).len() == 1 ==> esc_char(c)[0] == c && c != '"' && c != '\\',
        esc_char(c).len() == 2 ==> esc_char(c)[0] == '\\' && unesc(esc_char(c)[1]) == Some(c),
        esc_char(c).len() == 1 || esc_char(c).len() == 2,
{
}

proof fn lemma_qstr_body_here(s: Seq<char>, i: int, t: Seq<char>, rest: Seq<char>)
    requires
        0 <= i <= s.len(),
        s.skip(i) == escaped(t) + seq!['"'] + rest,
    ensures
        sp_qstr_body(s, i) == Some((t, i + escaped(t).len() + 1)),
        i + escaped(t).len() + 1 <= s.len(),
        s.skip(i + escaped(t).len() + 1) == rest,
    decreases t.len(),
{
    broadcast use vstd::seq_lib::group_seq_properties;

    assert(s.skip(i).len() == escaped(t).len() + 1 + rest.len());
    assert(s.skip(i).len() == s.len() - i);
    if t.len() == 0 {
        assert(escaped(t) =~= Seq::<char>::empty());
        assert(s.skip(i)[0] == '"');
        assert(s[i] == '"');
        assert(s.skip(i + 1) =~= rest) by {
            assert forall|k: int| 0 <= k < s.len() - i - 1 implies s.skip(i + 1)[k] == rest[k] by {
                assert(s.skip(i)[k + 1] == (escaped(t) + seq!['"'] + rest)[k + 1]);
            }
        }
    } else {
        let c = t[0];
        let e = esc_char(c);
        lemma_esc_char_cases(c);
        assert(escaped(t) == e + escaped(t.skip(1)));
        if e.len() == 1 {
            assert(s.skip(i)[0] == e[0]);
            assert(s[i] == c && c != '"' && c != '\\');
            assert(s.skip(i + 1) =~= escaped(t.skip(1)) + seq!['"'] + rest) by {
                assert forall|k: int| 0 <= k < s.len() - i - 1 implies s.skip(i + 1)[k] == (escaped(
                    t.skip(1),
                ) + seq!['"'] + rest)[k] by {
                    assert(s.skip(i)[k + 1] == (escaped(t) + seq!['"'] + rest)[k + 1]);
                }
            }
            lemma_qstr_body_here(s, i + 1, t.skip(1), rest);
            assert(seq![c] + t.skip(1) =~= t);
        } else {
            assert(s.skip(i)[0] == e[0] && s.skip(i)[1] == e[1]);
            assert(s[i] == '\\' && s[i + 1] == e[1]);
            assert(unesc(s[i + 1]) == Some(c));
            assert(s.skip(i + 2) =~= escaped(t.skip(1)) + seq!['"'] + rest) by {
                assert forall|k: int| 0 <= k < s.len() - i - 2 implies s.skip(i + 2)[k] == (escaped(
                    t.skip(1),
                ) + seq!['"'] + rest)[k] by {
                    assert(s.skip(i)[k + 2] == (escaped(t) + seq!['"'] + rest)[k + 2]);
                }
            }
            lemma_qstr_body_here(s, i + 2, t.skip(1), rest);
            assert(seq![c] + t.skip(1) =~= t);
        }
    }
}

proof fn lemma_quoted_here(s: Seq<char>, i: int, t: Seq<char>, rest: Seq<char>)
    requires
        0 <= i <= s.len(),
        s.skip(i) == quoted(t) + rest,
    ensures
        sp_qstr(s, i) == Some((t, i + quoted(t).len() as int)),
        i + quoted(t).len() <= s.len(),
        s.skip(i + quoted(t).len() as int) == rest,
{
    broadcast use vstd::seq_lib::group_seq_properties;

    assert(s.skip(i).len() == quoted(t).len() + rest.len());
    assert(s.skip(i).len() == s.len() - i);
    assert(quoted(t).len() == escaped(t).len() + 2);
    assert((quoted(t) + rest)[0] == '"');
    assert(s.skip(i)[0] == '"');
    assert(s[i] == '"');
    assert(s.skip(i + 1) =~= escaped(t) + seq!['"'] + rest) by {
        assert forall|k: int| 0 <= k < s.len() - i - 1 implies s.skip(i + 1)[k] == (escaped(t)
            + seq!['"'] + rest)[k] by {
            assert(s.skip(i)[k + 1] == (quoted(t) + rest)[k + 1]);
        }
    }
    lemma_qstr_body_here(s, i + 1, t, rest);
}

proof fn lemma_ws_here(s: Seq<char>, i: int)
    requires
        0 <= i <= s.len(),
        i == s.len() || !is_ws(s[i]),
    ensures
        ws_end(s, i) == i,
{
}

proof fn lemma_sym_here(s: Seq<char>, i: int, lit: Seq<char>, rest: Seq<char>)
    requires
        0 <= i <= s.len(),
        s.skip(i) == lit + rest,
        lit.len() > 0,
        !is_ws(lit[0]),
    ensures
        sp_sym(s, i, lit) == Some(i + lit.len() as int),
        i + lit.len() <= s.len(),
        s.skip(i + lit.len() as int) == rest,
{
    broadcast use vstd::seq_lib::group_seq_properties;

    assert(s.skip(i).len() == lit.len() + rest.len());
    assert(s.skip(i)[0] == (lit + rest)[0]);
    assert(s[i] == lit[0]);
    lemma_ws_here(s, i);
    lemma_lit_here(s, i, lit, rest);
}

proof fn lemma_u16_t_here(s: Seq<char>, i: int, n: u16, rest: Seq<char>)
    requires
        0 <= i <= s.len(),
        s.skip(i) == dec_digits(n as nat) + rest,
        rest.len() > 0,
        !crate::text::is_digit(rest[0]),
    ensures
        sp_u16_t(s, i) == Some((n, i + dec_digits(n as nat).len() as int)),
        i + dec_digits(n as nat).len() <= s.len(),
        s.skip(i + dec_digits(n as nat).len() as int) == rest,
{
    broadcast use vstd::seq_lib::group_seq_properties;

    crate::text::lemma_dec_digits_props(n as nat);
    let d = dec_digits(n as nat);
    assert(s.skip(i).len() == d.len() + rest.len());
    assert(s.skip(i)[0] == (d + rest)[0]);
    assert(s[i] == d[0]);
    assert(crate::text::is_digit(d[0]));
    lemma_ws_here(s, i);
    lemma_u16_here(s, i, n, rest);
}

proof fn lemma_qstr_t_here(s: Seq<char>, i: int, t: Seq<char>, rest: Seq<char>)
    requires
        0 <= i <= s.len(),
        s.skip(i) == quoted(t) + rest,
    ensures
        sp_qstr_t(s, i) == Some((t, i + quoted(t).len() as int)),
        i + quoted(t).len() <= s.len(),
        s.skip(i + quoted(t).len() as int) == rest,
{
    broadcast use vstd::seq_lib::group_seq_properties;

    assert(s.skip(i).len() == quoted(t).len() + rest.len());
    assert(s.skip(i)[0] == (quoted(t) + rest)[0]);
    assert(quoted(t)[0] == '"');
    assert(s[i] == '"');
    lemma_ws_here(s, i);
    lemma_quoted_here(s, i, t, rest);
}

proof fn lemma_field_str_here(s: Seq<char>, i: int, key: Seq<char>, t: Seq<char>, rest: Seq<char>)
    requires
        0 <= i <= s.len(),
        s.skip(i) == field_json(key, t) + rest,
        key.len() > 0,
        !is_ws(key[0]),
    ensures
        sp_field_str(s, i, key) matches Some(pr) && pr.0 == t && 0 <= pr.1 <= s.len() && s.skip(
            pr.1,
        ) == rest,
{
    reveal_strlit(",");
    reveal_strlit(":");
    assert(field_json(key, t) + rest =~= ","@ + (key + (":"@ + (quoted(t) + rest))));
    lemma_sym_here(s, i, ","@, key + (":"@ + (quoted(t) + rest)));
    let p1 = i + 1;
    lemma_sym_here(s, p1, key, ":"@ + (quoted(t) + rest));
    let p2 = p1 + key.len();
    lemma_sym_here(s, p2, ":"@, quoted(t) + rest);
    let p3 = p2 + 1;
    lemma_qstr_t_here(s, p3, t, rest);
}

#[verifier::rlimit(100)]
proof fn lemma_version_obj_here(s: Seq<char>, i: int, ver: Version, rest: Seq<char>)
    requires
        0 <= i <= s.len(),
        s.skip(i) == version_json(ver) + rest,
    ensures
        sp_version_obj(s, i) matches Some(pr) && pr.0 == ver && 0 <= pr.1 <= s.len() && s.skip(
            pr.1,
        ) == rest,
{
    reveal_strlit("{");
    reveal_strlit("}");
    reveal_strlit(",");
    reveal_strlit(":");
    reveal_strlit("\"major\"");
    reveal_strlit("\"minor\"");
    reveal_strlit("\"revision\"");
    let d1 = dec_digits(ver.major as nat);
    let d2 = dec_digits(ver.minor as nat);
    let d3 = dec_digits(ver.revision as nat);
    assert(version_json(ver) + rest =~= "{"@ + ("\"major\""@ + (":"@ + (d1 + (","@ + (
    "\"minor\""@ + (":"@ + (d2 + (","@ + ("\"revision\""@ + (":"@ + (d3 + ("}"@
        + rest)))))))))))));
    lemma_sym_here(s, i, "{"@, "\"major\""@ + (":"@ + (d1 + (","@ + ("\"minor\""@ + (":"@ + (d2
        + (","@ + ("\"revision\""@ + (":"@ + (d3 + ("}"@ + rest))))))))))));
    let p1 = i + 1;
    lemma_sym_here(s, p1, "\"major\""@, ":"@ + (d1 + (","@ + ("\"minor\""@ + (":"@ + (d2 + (","@
        + ("\"revision\""@ + (":"@ + (d3 + ("}"@ + rest)))))))))));
    let p2 = p1 + 7;
    lemma_sym_here(s, p2, ":"@, d1 + (","@ + ("\"minor\""@ + (":"@ + (d2 + (","@ + (
    "\"revision\""@ + (":"@ + (d3 + ("}"@ + rest))))))))));
    let p3 = p2 + 1;
    assert((","@ + ("\"minor\""@ + (":"@ + (d2 + (","@ + ("\"revision\""@ + (":"@ + (d3 + ("}"@
        + rest)))))))))[0] == ',');
    lemma_u16_t_here(s, p3, ver.major, ","@ + ("\"minor\""@ + (":"@ + (d2 + (","@ + (
    "\"revision\""@ + (":"@ + (d3 + ("}"@ + rest)))))))));
    let p4 = p3 + d1.len();
    lemma_sym_here(s, p4, ","@, "\"minor\""@ + (":"@ + (d2 + (","@ + ("\"revision\""@ + (":"@ + (
    d3 + ("}"@ + rest))))))));
    let p5 = p4 + 1;
    lemma_sym_here(s, p5, "\"minor\""@, ":"@ + (d2 + (","@ + ("\"revision\""@ + (":"@ + (d3 + (
    "}"@ + rest)))))));
    let p6 = p5 + 7;
    lemma_sym_here(s, p6, ":"@, d2 + (","@ + ("\"revision\""@ + (":"@ + (d3 + ("}"@ + rest))))));
    let p7 = p6 + 1;
    assert((","@ + ("\"revision\""@ + (":"@ + (d3 + ("}"@ + rest)))))[0] == ',');
    lemma_u16_t_here(s, p7, ver.minor, ","@ + ("\"revision\""@ + (":"@ + (d3 + ("}"@ + rest)))));
    let p8 = p7 + d2.len();
    lemma_sym_here(s, p8, ","@, "\"revision\""@ + (":"@ + (d3 + ("}"@ + rest))));
    let p9 = p8 + 1;
    lemma_sym_here(s, p9, "\"revision\""@, ":"@ + (d3 + ("}"@ + rest)));
    let p10 = p9 + 10;
    lemma_sym_here(s, p10, ":"@, d3 + ("}"@ + rest));
    let p11 = p10 + 1;
    assert(("}"@ + rest)[0] == '}');
    lemma_u16_t_here(s, p11, ver.revision, "}"@ + rest);
    let p12 = p11 + d3.len();
    lemma_sym_here(s, p12, "}"@, rest);
}

#[verifier::rlimit(100)]
proof fn lemma_authors_round_trip(s: Seq<char>, p: int, v: ConfigV)
    requires
        0 <= p <= s.len(),
        s.skip(p) == authors_json(v.authors),
    ensures
        config_parse_authors(
            s,
            p,
            ConfigV {
                mc_version: v.mc_version,
                mod_version: v.mod_version,
                display_name: v.display_name,
                description: v.description,
                mod_id: v.mod_id,
                authors: None,
            },
        ) == Some(v),
{
    reveal_strlit(",");
    reveal_strlit(":");
    reveal_strlit("}");
    reveal_strlit("null");
    reveal_strlit("\"authors\"");
    let auth = match v.authors {
        Some(a) => quoted(a),
        None => "null"@,
    };
    assert(s.skip(p) =~= ","@ + ("\"authors\""@ + (":"@ + (auth + "}"@))));
    lemma_sym_here(s, p, ","@, "\"authors\""@ + (":"@ + (auth + "}"@)));
    let p1 = p + 1;
    lemma_sym_here(s, p1, "\"authors\""@, ":"@ + (auth + "}"@));
    let p2 = p1 + 9;
    lemma_sym_here(s, p2, ":"@, auth + "}"@);
    let p3 = p2 + 1;
    match v.authors {
        None => {
            assert(auth == "null"@);
            lemma_sym_here(s, p3, "null"@, "}"@);
            let p4 = p3 + 4;
            assert("}"@ + Seq::<char>::empty() =~= "}"@);
            lemma_sym_here(s, p4, "}"@, Seq::<char>::empty());
            let e = p4 + 1;
            assert(s.skip(e).len() == 0);
            assert(e == s.len());
            assert(ws_end(s, e) == e);
        },
        Some(a) => {
            // `null` cannot match here: the next character is a quote.
            broadcast use vstd::seq_lib::group_seq_properties;

            assert(s.skip(p3).len() == auth.len() + 1);
            assert(s.skip(p3)[0] == (auth + "}"@)[0]);
            assert(quoted(a)[0] == '"');
            assert(s[p3] == '"');
            lemma_ws_here(s, p3);
            if crate::text::match_at(s, "null"@, p3) {
                assert(s.subrange(p3, p3 + 4)[0] == 'n');
                assert(false);
            }
            assert(sp_sym(s, p3, "null"@) is None);
            lemma_qstr_t_here(s, p3, a, "}"@);
            let p4 = p3 + quoted(a).len();
            assert(s.skip(p4) =~= "}"@ + Seq::<char>::empty());
            lemma_sym_here(s, p4, "}"@, Seq::<char>::empty());
            let e = p4 + 1;
            assert(s.skip(e).len() == 0);
            assert(e == s.len());
            assert(ws_end(s, e) == e);
        },
    }
}

/// The second half of the document: everything after `mod_version`.
#[verifier::rlimit(100)]
proof fn lemma_tail_round_trip(s: Seq<char>, p: int, v: ConfigV)
    requires
        0 <= p <= s.len(),
        s.skip(p) == field_json("\"display_name\""@, v.display_name) + (field_json(
            "\"description\""@,
            v.description,
        ) + (field_json("\"mod_id\""@, v.mod_id) + authors_json(v.authors))),
    ensures
        config_parse_tail(s, p, v.mc_version, v.mod_version) == Some(v),
{
    reveal_strlit("\"display_name\"");
    reveal_strlit("\"description\"");
    reveal_strlit("\"mod_id\"");
    lemma_field_str_here(
        s,
        p,
        "\"display_name\""@,
        v.display_name,
        field_json("\"description\""@, v.description) + (field_json("\"mod_id\""@, v.mod_id)
            + authors_json(v.authors)),
    );
    let pr1 = sp_field_str(s, p, "\"display_name\""@).unwrap();
    lemma_field_str_here(
        s,
        pr1.1,
        "\"description\""@,
        v.description,
        field_json("\"mod_id\""@, v.mod_id) + authors_json(v.authors),
    );
    let pr2 = sp_field_str(s, pr1.1, "\"description\""@).unwrap();
    lemma_field_str_here(s, pr2.1, "\"mod_id\""@, v.mod_id, authors_json(v.authors));
    let pr3 = sp_field_str(s, pr2.1, "\"mod_id\""@).unwrap();
    lemma_authors_round_trip(s, pr3.1, v);
}

/// Law: the descriptor document round-trips — parsing what
/// `config_json_spec` renders gives back exactly the descriptor.
#[verifier::rlimit(100)]
pub proof fn lemma_config_round_trip(v: ConfigV)
    ensures
        config_parse_spec(config_json_spec(v)) == Some(v),
{
    let s = config_json_spec(v);
    reveal_strlit("{");
    reveal_strlit(":");
    reveal_strlit(",");
    reveal_strlit("\"mc_version\"");
    reveal_strlit("\"mod_version\"");
    let f1 = field_json("\"mod_version\""@, v.mod_version);
    let f2 = field_json("\"display_name\""@, v.display_name);
    let f3 = field_json("\"description\""@, v.description);
    let f4 = field_json("\"mod_id\""@, v.mod_id);
    let fa = authors_json(v.authors);
    let rt = f2 + (f3 + (f4 + fa));
    let rv = version_json(v.mc_version) + (f1 + rt);
    assert(s =~= "{"@ + ("\"mc_version\""@ + (":"@ + rv)));
    assert(s.skip(0) =~= s);
    lemma_sym_here(s, 0, "{"@, "\"mc_version\""@ + (":"@ + rv));
    let p1 = 1int;
    lemma_sym_here(s, p1, "\"mc_version\""@, ":"@ + rv);
    let p2 = p1 + 12;
    lemma_sym_here(s, p2, ":"@, rv);
    let p3 = p2 + 1;
    lemma_version_obj_here(s, p3, v.mc_version, f1 + rt);
    let prv = sp_version_obj(s, p3).unwrap();
    lemma_field_str_here(s, prv.1, "\"mod_version\""@, v.mod_version, rt);
    let prm = sp_field_str(s, prv.1, "\"mod_version\""@).unwrap();
    lemma_tail_round_trip(s, prm.1, v);
}

/// Consumes the exact literal `lit` at `i`.
fn expect_lit(v: &Vec<char>, i: usize, lit: &Vec<char>) -> (r: Option<usize>)
    ensures
        match r {
            Some(e) => sp_lit(v@, i as int, lit@) == Some(e as int) && i <= e <= v@.len(),
            None => sp_lit(v@, i as int, lit@) is None,
        },
{
    if i <= v.len() && lit.len() <= v.len() - i {
        if crate::text::eq_at(v, i, lit) {
            Some(i + lit.len())
        } else {
            None
        }
    } else {
        None
    }
}

/// Consumes a decimal `u16` at `i`.
fn p_u16(v: &Vec<char>, i: usize) -> (r: Option<(u16, usize)>)
    requires
        i <= v@.len(),
    ensures
        match r {
            Some((n, e)) => sp_u16(v@, i as int) == Some((n, e as int)) && i <= e <= v@.len(),
            None => sp_u16(v@, i as int) is None,
        },
{
    let mut e: usize = i;
    while e < v.len() && '0' <= v[e] && v[e] <= '9'
        invariant
            i <= e <= v@.len(),
            digits_end(v@, i as int) == digits_end(v@, e as int),
        decreases v@.len() - e,
    {
        e = e + 1;
    }
    proof {
        assert(digits_end(v@, e as int) == e);
    }
    match crate::text::parse_u16_range(v, i, e) {
        Some(n) => Some((n, e)),
        None => None,
    }
}

/// Consumes a quoted string literal at `i`, undoing the escapes.
fn p_qstr(v: &Vec<char>, i: usize) -> (r: Option<(Vec<char>, usize)>)
    requires
        i <= v@.len(),
    ensures
        match r {
            Some((t, e)) => sp_qstr(v@, i as int) == Some((t@, e as int)) && i <= e <= v@.len(),
            None => sp_qstr(v@, i as int) is None,
        },
{
    if i >= v.len() || v[i] != '"' {
        return None;
    }
    let mut cur: usize = i + 1;
    let mut acc: Vec<char> = Vec::new();
    loop
        invariant
            i < v@.len(),
            v@[i as int] == '"',
            i + 1 <= cur <= v@.len(),
            match sp_qstr_body(v@, cur as int) {
                Some((t, e)) => sp_qstr_body(v@, i + 1) == Some((acc@ + t, e)),
                None => sp_qstr_body(v@, i + 1) is None,
            },
        decreases v@.len() - cur,
    {
        if cur == v.len() {
            return None;
        }
        let c = v[cur];
        if c == '"' {
            proof {
                assert(sp_qstr_body(v@, cur as int) == Some((Seq::<char>::empty(), cur + 1)));
                assert(acc@ + Seq::<char>::empty() =~= acc@);
                assert(sp_qstr_body(v@, i + 1) == Some((acc@, cur + 1)));
                assert(sp_qstr(v@, i as int) == Some((acc@, cur + 1)));
            }
            return Some((acc, cur + 1));
        } else if c == '\\' {
            if cur + 1 == v.len() {
                return None;
            }
            let c2 = v[cur + 1];
            let u: char = if c2 == '"' {
                '"'
            } else if c2 == '\\' {
                '\\'
            } else if c2 == 'n' {
                '\n'
            } else if c2 == 'r' {
                '\r'
            } else if c2 == 't' {
                '\t'
            } else {
                return None;
            };
            let ghost pre = acc@;
            acc.push(u);
            proof {
                assert(unesc(c2) == Some(u));
                if let Some((t, e)) = sp_qstr_body(v@, cur + 2) {
                    assert(sp_qstr_body(v@, cur as int) == Some((seq![u] + t, e)));
                    assert(pre + (seq![u] + t) =~= acc@ + t);
                }
            }
            cur = cur + 2;
        } else {
            let ghost pre = acc@;
            acc.push(c);
            proof {
                if let Some((t, e)) = sp_qstr_body(v@, cur + 1) {
                    assert(sp_qstr_body(v@, cur as int) == Some((seq![c] + t, e)));
                    assert(pre + (seq![c] + t) =~= acc@ + t);
                }
            }
            cur = cur + 1;
        }
    }
}

/// Consumes whitespace at `i`.
fn skip_ws(v: &Vec<char>, i: usize) -> (r: usize)
    requires
        i <= v@.len(),
    ensures
        r == ws_end(v@, i as int),
        i <= r <= v@.len(),
{
    let mut e: usize = i;
    while e < v.len() && (v[e] == ' ' || v[e] == '\t' || v[e] == '\n' || v[e] == '\r')
        invariant
            i <= e <= v@.len(),
            ws_end(v@, i as int) == ws_end(v@, e as int),
        decreases v@.len() - e,
    {
        e = e + 1;
    }
    proof {
        assert(ws_end(v@, e as int) == e);
    }
    e
}

/// Consumes whitespace, then the exact literal.
fn expect_sym(v: &Vec<char>, i: usize, lit: &Vec<char>) -> (r: Option<usize>)
    requires
        i <= v@.len(),
    ensures
        match r {
            Some(e) => sp_sym(v@, i as int, lit@) == Some(e as int) && i <= e <= v@.len(),
            None => sp_sym(v@, i as int, lit@) is None,
        },
{
    let j = skip_ws(v, i);
    expect_lit(v, j, lit)
}

/// Consumes whitespace, then a decimal `u16`.
fn p_u16_t(v: &Vec<char>, i: usize) -> (r: Option<(u16, usize)>)
    requires
        i <= v@.len(),
    ensures
        match r {
            Some((n, e)) => sp_u16_t(v@, i as int) == Some((n, e as int)) && i <= e <= v@.len(),
            None => sp_u16_t(v@, i as int) is None,
        },
{
    let j = skip_ws(v, i);
    p_u16(v, j)
}

/// Consumes whitespace, then a quoted string literal.
fn p_qstr_t(v: &Vec<char>, i: usize) -> (r: Option<(Vec<char>, usize)>)
    requires
        i <= v@.len(),
    ensures
        match r {
            Some((t, e)) => sp_qstr_t(v@, i as int) == Some((t@, e as int)) && i <= e <= v@.len(),
            None => sp_qstr_t(v@, i as int) is None,
        },
{
    let j = skip_ws(v, i);
    p_qstr(v, j)
}

/// Consumes the `mc_version` object.
fn p_version_obj(v: &Vec<char>, i: usize) -> (r: Option<(Version, usize)>)
    requires
        i <= v@.len(),
    ensures
        match r {
            Some((ver, e)) => sp_version_obj(v@, i as int) == Some((ver, e as int)) && i <= e
                <= v@.len(),
            None => sp_version_obj(v@, i as int) is None,
        },
{
    let l_open = str_chars("{");
    let l_close = str_chars("}");
    let l_colon = str_chars(":");
    let l_comma = str_chars(",");
    let k_major = str_chars("\"major\"");
    let k_minor = str_chars("\"minor\"");
    let k_revision = str_chars("\"revision\"");
    let p1 = match expect_sym(v, i, &l_open) {
        Some(p) => p,
        None => {
            return None;
        },
    };
    let p2 = match expect_sym(v, p1, &k_major) {
        Some(p) => p,
        None => {
            return None;
        },
    };
    let p3 = match expect_sym(v, p2, &l_colon) {
        Some(p) => p,
        None => {
            return None;
        },
    };
    let (major, p4) = match p_u16_t(v, p3) {
        Some(x) => x,
        None => {
            return None;
        },
    };
    let p5 = match expect_sym(v, p4, &l_comma) {
        Some(p) => p,
        None => {
            return None;
        },
    };
    let p6 = match expect_sym(v, p5, &k_minor) {
        Some(p) => p,
        None => {
            return None;
        },
    };
    let p7 = match expect_sym(v, p6, &l_colon) {
        Some(p) => p,
        None => {
            return None;
        },
    };
    let (minor, p8) = match p_u16_t(v, p7) {
        Some(x) => x,
        None => {
            return None;
        },
    };
    let p9 = match expect_sym(v, p8, &l_comma) {
        Some(p) => p,
        None => {
            return None;
        },
    };
    let p10 = match expect_sym(v, p9, &k_revision) {
        Some(p) => p,
        None => {
            return None;
        },
    };
    let p11 = match expect_sym(v, p10, &l_colon) {
        Some(p) => p,
        None => {
            return None;
        },
    };
    let (revision, p12) = match p_u16_t(v, p11) {
        Some(x) => x,
        None => {
            return None;
        },
    };
    let p13 = match expect_sym(v, p12, &l_close) {
        Some(p) => p,
        None => {
            return None;
        },
    };
    Some((Version { major, minor, revision }, p13))
}

/// Consumes `, "<key>" : "<string>"`.
fn p_field_str(v: &Vec<char>, i: usize, key: &Vec<char>) -> (r: Option<(Vec<char>, usize)>)
    requires
        i <= v@.len(),
    ensures
        match r {
            Some((t, e)) => sp_field_str(v@, i as int, key@) == Some((t@, e as int)) && i <= e
                <= v@.len(),
            None => sp_field_str(v@, i as int, key@) is None,
        },
{
    let l_colon = str_chars(":");
    let l_comma = str_chars(",");
    let p1 = match expect_sym(v, i, &l_comma) {
        Some(p) => p,
        None => {
            return None;
        },
    };
    let p2 = match expect_sym(v, p1, key) {
        Some(p) => p,
        None => {
            return None;
        },
    };
    let p3 = match expect_sym(v, p2, &l_colon) {
        Some(p) => p,
        None => {
            return None;
        },
    };
    p_qstr_t(v, p3)
}

/// Parses a descriptor document back into a descriptor: the fields of
/// the persistence contract in their canonical order, with any
/// whitespace between tokens, so a pretty-printed document reads back
/// fine. The create pipeline is the document's only writer and always
/// writes this order; a missing field, a field out of order, or
/// trailing text is malformed.
pub fn parse_config(s: &str) -> (r: Result<ModConfig, Error>)
    ensures
        match r {
            Ok(c) => config_parse_spec(s@) == Some(c@),
            Err(e) => config_parse_spec(s@) is None && e == Error::Parse,
        },
{
    let v = str_chars(s);
    let l_open = str_chars("{");
    let l_close = str_chars("}");
    let l_colon = str_chars(":");
    let l_comma = str_chars(",");
    let p1 = match expect_sym(&v, 0, &l_open) {
        Some(p) => p,
        None => {
            return Err(Error::Parse);
        },
    };
    let k_mc = str_chars("\"mc_version\"");
    let p2 = match expect_sym(&v, p1, &k_mc) {
        Some(p) => p,
        None => {
            return Err(Error::Parse);
        },
    };
    let p3 = match expect_sym(&v, p2, &l_colon) {
        Some(p) => p,
        None => {
            return Err(Error::Parse);
        },
    };
    let (mc_version, p4) = match p_version_obj(&v, p3) {
        Some(x) => x,
        None => {
            return Err(Error::Parse);
        },
    };
    let k_mv = str_chars("\"mod_version\"");
    let (mod_version, p5) = match p_field_str(&v, p4, &k_mv) {
        Some(x) => x,
        None => {
            return Err(Error::Parse);
        },
    };
    let k_dn = str_chars("\"display_name\"");
    let (display_name, p6) = match p_field_str(&v, p5, &k_dn) {
        Some(x) => x,
        None => {
            return Err(Error::Parse);
        },
    };
    let k_ds = str_chars("\"description\"");
    let (description, p7) = match p_field_str(&v, p6, &k_ds) {
        Some(x) => x,
        None => {
            return Err(Error::Parse);
        },
    };
    let k_id = str_chars("\"mod_id\"");
    let (mod_id, p8) = match p_field_str(&v, p7, &k_id) {
        Some(x) => x,
        None => {
            return Err(Error::Parse);
        },
    };
    let p9 = match expect_sym(&v, p8, &l_comma) {
        Some(p) => p,
        None => {
            return Err(Error::Parse);
        },
    };
    let k_auth = str_chars("\"authors\"");
    let p10 = match expect_sym(&v, p9, &k_auth) {
        Some(p) => p,
        None => {
            return Err(Error::Parse);
        },
    };
    let p11 = match expect_sym(&v, p10, &l_colon) {
        Some(p) => p,
        None => {
            return Err(Error::Parse);
        },
    };
    let l_null = str_chars("null");
    match expect_sym(&v, p11, &l_null) {
        Some(p12) => {
            let e = match expect_sym(&v, p12, &l_close) {
                Some(p) => p,
                None => {
                    return Err(Error::Parse);
                },
            };
            if skip_ws(&v, e) == v.len() {
                Ok(
                    ModConfig {
                        mc_version,
                        mod_version: chars_string(&mod_version),
                        display_name: chars_string(&display_name),
                        description: chars_string(&description),
                        mod_id: chars_string(&mod_id),
                        authors: None,
                    },
                )
            } else {
                Err(Error::Parse)
            }
        },
        None => {
            let (a, p12) = match p_qstr_t(&v, p11) {
                Some(x) => x,
                None => {
                    return Err(Error::Parse);
                },
            };
            let e = match expect_sym(&v, p12, &l_close) {
                Some(p) => p,
                None => {
                    return Err(Error::Parse);
                },
            };
            if skip_ws(&v, e) == v.len() {
                Ok(
                    ModConfig {
                        mc_version,
                        mod_version: chars_string(&mod_version),
                        display_name: chars_string(&display_name),
                        description: chars_string(&description),
                        mod_id: chars_string(&mod_id),
                        authors: Some(chars_string(&a)),
                    },
                )
            } else {
                Err(Error::Parse)
            }
        },
    }
}

} // verus!
