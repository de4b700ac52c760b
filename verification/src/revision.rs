//! Per-application revision history and its durable marker.

use vstd::prelude::*;

use crate::strutil::{chars_to_string, push_char, str_chars};

verus! {

/// Revision history persisted per application: the revision currently checked
/// out, and the revision that was current immediately before it.
#[derive(Debug)]
pub struct RevisionData {
    pub current_rev: Option<String>,
    pub previous_rev: Option<String>,
}

impl RevisionData {
    /// Both fields as mathematical values.
    pub open spec fn rev_pair(&self) -> (Option<Seq<char>>, Option<Seq<char>>) {
        (self.current_rev.deep_view(), self.previous_rev.deep_view())
    }
}

impl Default for RevisionData {
    /// Absent or unreadable markers read back as this value.
    fn default() -> (r: Self)
        ensures
            r.current_rev is None,
            r.previous_rev is None,
    {
        RevisionData { current_rev: None, previous_rev: None }
    }
}

impl PartialEq for RevisionData {
    fn eq(&self, other: &Self) -> (r: bool) {
        let cur = match (&self.current_rev, &other.current_rev) {
            (None, None) => true,
            (Some(a), Some(b)) => *a == *b,
            _ => false,
        };
        let prev = match (&self.previous_rev, &other.previous_rev) {
            (None, None) => true,
            (Some(a), Some(b)) => *a == *b,
            _ => false,
        };
        cur && prev
    }
}

impl vstd::std_specs::cmp::PartialEqSpecImpl for RevisionData {
    open spec fn obeys_eq_spec() -> bool {
        true
    }

    open spec fn eq_spec(&self, other: &Self) -> bool {
        self.current_rev.deep_view() == other.current_rev.deep_view()
            && self.previous_rev.deep_view() == other.previous_rev.deep_view()
    }
}

// ---------------------------------------------------------------------------
// The marker document format.
//
// A marker file holds one small JSON object with the two revision fields.
// The text written for a given pair of revisions is pinned down by
// `marker_json`; `p_marker` is the grammar it is read back with.
// ---------------------------------------------------------------------------

/// The base-16 digit characters, lower case.
pub open spec fn hex_digit(v: int) -> char {
    if v < 10 {
        (v + 48) as char
    } else {
        (v + 87) as char
    }
}

/// Whether `d` is a base-16 digit, either case.
pub open spec fn is_hex(d: char) -> bool {
    (48 <= d as u32 && d as u32 <= 57) || (97 <= d as u32 && d as u32 <= 102) || (65 <= d as u32
        && d as u32 <= 70)
}

/// The numeric value of a base-16 digit character.
pub open spec fn hex_val(d: char) -> int {
    if 48 <= d as u32 && d as u32 <= 57 {
        d as int - 48
    } else if 97 <= d as u32 && d as u32 <= 102 {
        d as int - 87
    } else {
        d as int - 55
    }
}

/// The character a single-letter escape denotes, if any.
pub open spec fn unescape(e: char) -> Option<char> {
    if e == '"' {
        Some('"')
    } else if e == '\\' {
        Some('\\')
    } else if e == '/' {
        Some('/')
    } else if e == 'b' {
        Some('\u{0008}')
    } else if e == 'f' {
        Some('\u{000C}')
    } else if e == 'n' {
        Some('\n')
    } else if e == 'r' {
        Some('\r')
    } else if e == 't' {
        Some('\t')
    } else {
        None
    }
}

/// The escaped form of one character: the named short escapes where JSON has
/// them, a four-digit escape for the other control characters, the bare
/// character everywhere else.
pub open spec fn esc_char(c: char) -> Seq<char> {
    if c == '"' {
        seq!['\\', '"']
    } else if c == '\\' {
        seq!['\\', '\\']
    } else if c == '\u{0008}' {
        seq!['\\', 'b']
    } else if c == '\u{000C}' {
        seq!['\\', 'f']
    } else if c == '\n' {
        seq!['\\', 'n']
    } else if c == '\r' {
        seq!['\\', 'r']
    } else if c == '\t' {
        seq!['\\', 't']
    } else if (c as u32) < 0x20 {
        seq!['\\', 'u', '0', '0', hex_digit(c as int / 16), hex_digit(c as int % 16)]
    } else {
        seq![c]
    }
}

/// The escaped form of a whole string.
pub open spec fn esc(s: Seq<char>) -> Seq<char>
    decreases s.len(),
{
    if s.len() == 0 {
        Seq::empty()
    } else {
        esc_char(s[0]) + esc(s.drop_first())
    }
}

/// A revision field as JSON text: `null`, or the revision quoted and escaped.
pub open spec fn json_opt_string(v: Option<Seq<char>>) -> Seq<char> {
    match v {
        None => "null"@,
        Some(s) => seq!['"'] + esc(s) + seq!['"'],
    }
}

/// The exact text of the marker document for a pair of revisions,
/// token by token.
pub open spec fn marker_json(cur: Option<Seq<char>>, prev: Option<Seq<char>>) -> Seq<char> {
    "{"@ + "\n  "@ + "\"current_rev\""@ + ":"@ + " "@ + json_opt_string(cur) + ","@ + "\n  "@
        + "\"previous_rev\""@ + ":"@ + " "@ + json_opt_string(prev) + "\n"@ + "}"@
}

/// JSON insignificant whitespace.
pub open spec fn is_ws(c: char) -> bool {
    c == ' ' || c == '\n' || c == '\t' || c == '\r'
}

/// Drops leading whitespace.
pub open spec fn p_ws(s: Seq<char>) -> Seq<char>
    decreases s.len(),
{
    if s.len() > 0 && is_ws(s[0]) {
        p_ws(s.drop_first())
    } else {
        s
    }
}

/// Consumes an expected literal token, yielding the rest of the input.
pub open spec fn p_lit(s: Seq<char>, lit: Seq<char>) -> Option<Seq<char>> {
    if s.len() >= lit.len() && s.subrange(0, lit.len() as int) == lit {
        Some(s.skip(lit.len() as int))
    } else {
        None
    }
}

/// Consumes the body of a quoted string, after its opening quote: the
/// unescaped contents, and the rest of the input after the closing quote.
pub open spec fn p_string(s: Seq<char>) -> Option<(Seq<char>, Seq<char>)>
    decreases s.len(),
{
    if s.len() == 0 {
        None
    } else if s[0] == '"' {
        Some((Seq::empty(), s.drop_first()))
    } else if s[0] == '\\' {
        if s.len() < 2 {
            None
        } else if s[1] == 'u' {
            if s.len() >= 6 && s[2] == '0' && s[3] == '0' && is_hex(s[4]) && is_hex(s[5]) {
                match p_string(s.skip(6)) {
                    Some(p) => Some(
                        (seq![(16 * hex_val(s[4]) + hex_val(s[5])) as char] + p.0, p.1),
                    ),
                    None => None,
                }
            } else {
                None
            }
        } else {
            match unescape(s[1]) {
                Some(c) => match p_string(s.skip(2)) {
                    Some(p) => Some((seq![c] + p.0, p.1)),
                    None => None,
                },
                None => None,
            }
        }
    } else {
        match p_string(s.drop_first()) {
            Some(p) => Some((seq![s[0]] + p.0, p.1)),
            None => None,
        }
    }
}

/// Consumes a revision field value: a quoted string, or `null` for no
/// revision.
pub open spec fn p_value(s: Seq<char>) -> Option<(Option<Seq<char>>, Seq<char>)> {
    if s.len() > 0 && s[0] == '"' {
        match p_string(s.drop_first()) {
            Some(p) => Some((Some(p.0), p.1)),
            None => None,
        }
    } else {
        match p_lit(s, "null"@) {
            Some(r) => Some((None, r)),
            None => None,
        }
    }
}

/// The whole marker grammar: the revision pair a marker text denotes, if it
/// is well-formed.
pub open spec fn p_marker(s: Seq<char>) -> Option<(Option<Seq<char>>, Option<Seq<char>>)> {
    match p_lit(p_ws(s), "{"@) {
        None => None,
        Some(s1) => match p_lit(p_ws(s1), "\"current_rev\""@) {
            None => None,
            Some(s2) => match p_lit(p_ws(s2), ":"@) {
                None => None,
                Some(s3) => match p_value(p_ws(s3)) {
                    None => None,
                    Some((cur, s4)) => match p_lit(p_ws(s4), ","@) {
                        None => None,
                        Some(s5) => match p_lit(p_ws(s5), "\"previous_rev\""@) {
                            None => None,
                            Some(s6) => match p_lit(p_ws(s6), ":"@) {
                                None => None,
                                Some(s7) => match p_value(p_ws(s7)) {
                                    None => None,
                                    Some((prev, s8)) => match p_lit(p_ws(s8), "}"@) {
                                        None => None,
                                        Some(s9) => if p_ws(s9).len() == 0 {
                                            Some((cur, prev))
                                        } else {
                                            None
                                        },
                                    },
                                },
                            },
                        },
                    },
                },
            },
        },
    }
}

// ---------------------------------------------------------------------------
// Round-trip lemmas: parsing back what was written.
// ---------------------------------------------------------------------------

/// Whitespace before a token is dropped.
proof fn lemma_p_ws_prefix(w: Seq<char>, rest: Seq<char>)
    requires
        forall|i: int| 0 <= i < w.len() ==> is_ws(w[i]),
    ensures
        p_ws(w + rest) == p_ws(rest),
    decreases w.len(),
{
    if w.len() == 0 {
        assert(w + rest =~= rest);
    } else {
        assert((w + rest)[0] == w[0]);
        assert((w + rest).drop_first() =~= w.drop_first() + rest);
        lemma_p_ws_prefix(w.drop_first(), rest);
    }
}

/// Input that does not begin with whitespace is left alone.
proof fn lemma_p_ws_none(s: Seq<char>)
    requires
        s.len() == 0 || !is_ws(s[0]),
    ensures
        p_ws(s) == s,
{
}

/// A literal token at the front of the input is consumed exactly.
proof fn lemma_p_lit(lit: Seq<char>, rest: Seq<char>)
    ensures
        p_lit(lit + rest, lit) == Some(rest),
{
    assert((lit + rest).subrange(0, lit.len() as int) =~= lit);
    assert((lit + rest).skip(lit.len() as int) =~= rest);
}

/// A character's code point is the same whether read as `u32` or as `int`.
proof fn lemma_char_code(c: char)
    ensures
        (c as u32) as int == c as int,
{
}

/// Base-16 digits read back as their value.
proof fn lemma_hex_digit_val(v: int)
    requires
        0 <= v < 16,
    ensures
        is_hex(hex_digit(v)),
        hex_val(hex_digit(v)) == v,
{
    if v < 10 {
        assert(hex_digit(v) as u32 == v + 48);
    } else {
        assert(hex_digit(v) as u32 == v + 87);
    }
}

/// An escaped string body followed by its closing quote parses back to the
/// string it encodes, leaving the rest of the input untouched.
proof fn lemma_p_string_esc(t: Seq<char>, rest: Seq<char>)
    ensures
        p_string(esc(t) + (seq!['"'] + rest)) == Some((t, rest)),
    decreases t.len(),
{
    let s = esc(t) + (seq!['"'] + rest);
    if t.len() == 0 {
        assert(s =~= seq!['"'] + rest);
        assert(s[0] == '"');
        assert(s.drop_first() =~= rest);
        assert(t =~= Seq::<char>::empty());
    } else {
        let c = t[0];
        let t1 = t.drop_first();
        assert(esc(t) == esc_char(c) + esc(t1));
        lemma_p_string_esc(t1, rest);
        if c == '"' || c == '\\' || c == '\u{0008}' || c == '\u{000C}' || c == '\n' || c == '\r'
            || c == '\t' {
            let e = esc_char(c)[1];
            assert(s[0] == '\\');
            assert(s[1] == e);
            assert(s.len() >= 2);
            assert(e != 'u');
            assert(unescape(e) == Some(c));
            assert(s.skip(2) =~= esc(t1) + (seq!['"'] + rest));
            assert(seq![c] + t1 =~= t);
        } else if (c as u32) < 0x20 {
            let u = c as int;
            assert(s[0] == '\\');
            assert(s[1] == 'u');
            assert(s[2] == '0');
            assert(s[3] == '0');
            assert(s[4] == hex_digit(u / 16));
            assert(s[5] == hex_digit(u % 16));
            assert(s.len() >= 6);
            lemma_char_code(c);
            assert(0 <= u < 32);
            assert(0 <= u / 16 < 16 && 0 <= u % 16 < 16 && 16 * (u / 16) + u % 16 == u)
                by (nonlinear_arith)
                requires
                    0 <= u < 32,
            ;
            lemma_hex_digit_val(u / 16);
            lemma_hex_digit_val(u % 16);
            assert((16 * hex_val(s[4]) + hex_val(s[5])) as char == c);
            assert(s.skip(6) =~= esc(t1) + (seq!['"'] + rest));
            assert(seq![c] + t1 =~= t);
        } else {
            assert(s[0] == c);
            assert(c != '"' && c != '\\');
            assert(s.drop_first() =~= esc(t1) + (seq!['"'] + rest));
            assert(seq![c] + t1 =~= t);
        }
    }
}

/// A field value as written by `json_opt_string` parses back to the same
/// value.
proof fn lemma_p_value(v: Option<Seq<char>>, rest: Seq<char>)
    ensures
        p_value(p_ws(json_opt_string(v) + rest)) == Some((v, rest)),
{
    let s = json_opt_string(v) + rest;
    match v {
        None => {
            reveal_strlit("null");
            assert(s[0] == 'n');
            lemma_p_ws_none(s);
            lemma_p_lit("null"@, rest);
            assert("null"@ + rest =~= s);
        },
        Some(t) => {
            assert(s[0] == '"');
            lemma_p_ws_none(s);
            assert(s.drop_first() =~= esc(t) + (seq!['"'] + rest));
            lemma_p_string_esc(t, rest);
        },
    }
}

/// The law of the revision store: a marker written for any pair of revisions
/// reads back as exactly that pair.
#[verifier::rlimit(100)]
#[verifier::spinoff_prover]
pub proof fn lemma_marker_round_trip(cur: Option<Seq<char>>, prev: Option<Seq<char>>)
    ensures
        p_marker(marker_json(cur, prev)) == Some((cur, prev)),
{
    reveal_strlit("{");
    reveal_strlit("\n  ");
    reveal_strlit("\"current_rev\"");
    reveal_strlit(":");
    reveal_strlit(" ");
    reveal_strlit(",");
    reveal_strlit("\"previous_rev\"");
    reveal_strlit("\n");
    reveal_strlit("}");
    reveal_strlit("null");

    let v1 = json_opt_string(cur);
    let v2 = json_opt_string(prev);
    let doc = marker_json(cur, prev);

    // The remainder of the input before each token, outermost first.
    let r1 = "\n  "@ + "\"current_rev\""@ + ":"@ + " "@ + v1 + ","@ + "\n  "@
        + "\"previous_rev\""@ + ":"@ + " "@ + v2 + "\n"@ + "}"@;
    let r2 = ":"@ + " "@ + v1 + ","@ + "\n  "@ + "\"previous_rev\""@ + ":"@ + " "@ + v2 + "\n"@
        + "}"@;
    let r3 = " "@ + v1 + ","@ + "\n  "@ + "\"previous_rev\""@ + ":"@ + " "@ + v2 + "\n"@ + "}"@;
    let r4 = ","@ + "\n  "@ + "\"previous_rev\""@ + ":"@ + " "@ + v2 + "\n"@ + "}"@;
    let r5 = "\n  "@ + "\"previous_rev\""@ + ":"@ + " "@ + v2 + "\n"@ + "}"@;
    let r6 = ":"@ + " "@ + v2 + "\n"@ + "}"@;
    let r7 = " "@ + v2 + "\n"@ + "}"@;
    let r8 = "\n"@ + "}"@;
    let r9 = Seq::<char>::empty();

    // "{"
    assert(doc =~= "{"@ + r1);
    assert(doc[0] == '{');
    lemma_p_ws_none(doc);
    lemma_p_lit("{"@, r1);
    assert(p_lit(p_ws(doc), "{"@) == Some(r1));

    // whitespace, then the first key
    assert(r1 =~= "\n  "@ + ("\"current_rev\""@ + r2));
    assert(forall|i: int| 0 <= i < "\n  "@.len() ==> is_ws("\n  "@[i]));
    lemma_p_ws_prefix("\n  "@, "\"current_rev\""@ + r2);
    assert(("\"current_rev\""@ + r2)[0] == '"');
    lemma_p_ws_none("\"current_rev\""@ + r2);
    lemma_p_lit("\"current_rev\""@, r2);
    assert(p_lit(p_ws(r1), "\"current_rev\""@) == Some(r2));

    // ":"
    assert(r2 =~= ":"@ + r3);
    assert(r2[0] == ':');
    lemma_p_ws_none(r2);
    lemma_p_lit(":"@, r3);
    assert(p_lit(p_ws(r2), ":"@) == Some(r3));

    // one space, then the first value
    assert(r3 =~= " "@ + (v1 + r4));
    assert(forall|i: int| 0 <= i < " "@.len() ==> is_ws(" "@[i]));
    lemma_p_ws_prefix(" "@, v1 + r4);
    lemma_p_value(cur, r4);
    assert(p_value(p_ws(r3)) == Some((cur, r4)));

    // ","
    assert(r4 =~= ","@ + r5);
    lemma_p_ws_none(r4);
    lemma_p_lit(","@, r5);
    assert(p_lit(p_ws(r4), ","@) == Some(r5));

    // whitespace, then the second key
    assert(r5 =~= "\n  "@ + ("\"previous_rev\""@ + r6));
    lemma_p_ws_prefix("\n  "@, "\"previous_rev\""@ + r6);
    assert(("\"previous_rev\""@ + r6)[0] == '"');
    lemma_p_ws_none("\"previous_rev\""@ + r6);
    lemma_p_lit("\"previous_rev\""@, r6);
    assert(p_lit(p_ws(r5), "\"previous_rev\""@) == Some(r6));

    // ":"
    assert(r6 =~= ":"@ + r7);
    assert(r6[0] == ':');
    lemma_p_ws_none(r6);
    lemma_p_lit(":"@, r7);
    assert(p_lit(p_ws(r6), ":"@) == Some(r7));

    // one space, then the second value
    assert(r7 =~= " "@ + (v2 + r8));
    lemma_p_ws_prefix(" "@, v2 + r8);
    lemma_p_value(prev, r8);
    assert(p_value(p_ws(r7)) == Some((prev, r8)));

    // closing newline and "}"
    assert(r8 =~= "\n"@ + ("}"@ + r9));
    assert(forall|i: int| 0 <= i < "\n"@.len() ==> is_ws("\n"@[i]));
    lemma_p_ws_prefix("\n"@, "}"@ + r9);
    assert(("}"@ + r9)[0] == '}');
    lemma_p_ws_none("}"@ + r9);
    lemma_p_lit("}"@, r9);
    assert(p_lit(p_ws(r8), "}"@) == Some(r9));
    lemma_p_ws_none(r9);
}

// ---------------------------------------------------------------------------
// Writing a marker.
// ---------------------------------------------------------------------------

/// Escaping distributes over concatenation.
proof fn lemma_esc_concat(a: Seq<char>, b: Seq<char>)
    ensures
        esc(a + b) == esc(a) + esc(b),
    decreases a.len(),
{
    if a.len() == 0 {
        assert(a + b =~= b);
        assert(esc(a) + esc(b) =~= esc(b));
    } else {
        assert((a + b)[0] == a[0]);
        assert((a + b).drop_first() =~= a.drop_first() + b);
        lemma_esc_concat(a.drop_first(), b);
        assert(esc_char(a[0]) + (esc(a.drop_first()) + esc(b)) =~= (esc_char(a[0]) + esc(
            a.drop_first(),
        )) + esc(b));
    }
}

/// Escaping one more character appends its escaped form.
proof fn lemma_esc_snoc(t: Seq<char>, i: int)
    requires
        0 <= i < t.len(),
    ensures
        esc(t.take(i + 1)) == esc(t.take(i)) + esc_char(t[i]),
{
    assert(t.take(i + 1) =~= t.take(i) + seq![t[i]]);
    lemma_esc_concat(t.take(i), seq![t[i]]);
    assert(seq![t[i]].drop_first() =~= Seq::<char>::empty());
    assert(esc(Seq::<char>::empty()) == Seq::<char>::empty());
    assert(esc(seq![t[i]]) =~= esc_char(t[i]));
}

/// The lower-case digit character of a base-16 value.
fn hex_digit_char(v: u8) -> (d: char)
    requires
        v < 16,
    ensures
        d == hex_digit(v as int),
{
    if v < 10 {
        (48 + v) as char
    } else {
        (87 + v) as char
    }
}

/// Appends the escaped form of `s` to `out`.
fn append_escaped(out: &mut String, s: &str)
    ensures
        final(out)@ == old(out)@ + esc(s@),
{
    let n = s.unicode_len();
    let mut i: usize = 0;
    while i < n
        invariant
            i <= n,
            n == s@.len(),
            out@ == old(out)@ + esc(s@.take(i as int)),
        decreases n - i,
    {
        let c = s.get_char(i);
        let u = c as u32;
        if c == '"' || c == '\\' {
            push_char(out, '\\');
            push_char(out, c);
        } else if u == 0x08 {
            push_char(out, '\\');
            push_char(out, 'b');
        } else if u == 0x0C {
            push_char(out, '\\');
            push_char(out, 'f');
        } else if c == '\n' {
            push_char(out, '\\');
            push_char(out, 'n');
        } else if c == '\r' {
            push_char(out, '\\');
            push_char(out, 'r');
        } else if c == '\t' {
            push_char(out, '\\');
            push_char(out, 't');
        } else if u < 0x20 {
            push_char(out, '\\');
            push_char(out, 'u');
            push_char(out, '0');
            push_char(out, '0');
            push_char(out, hex_digit_char((u / 16) as u8));
            push_char(out, hex_digit_char((u % 16) as u8));
        } else {
            push_char(out, c);
        }
        proof {
            lemma_esc_snoc(s@, i as int);
            assert(out@ =~= old(out)@ + esc(s@.take(i + 1 as int)));
        }
        i = i + 1;
    }
    proof {
        assert(s@.take(n as int) =~= s@);
    }
}

/// Appends one revision field as JSON text to `out`.
fn append_value(out: &mut String, v: &Option<String>)
    ensures
        final(out)@ == old(out)@ + json_opt_string(v.deep_view()),
{
    match v {
        None => {
            out.append("null");
        },
        Some(s) => {
            push_char(out, '"');
            append_escaped(out, s.as_str());
            push_char(out, '"');
            proof {
                assert(old(out)@ + seq!['"'] + esc(s@) + seq!['"'] =~= old(out)@ + (seq!['"'] + esc(
                    s@,
                ) + seq!['"']));
            }
        },
    }
}

/// The text to store in an application's marker file for `data`.
///
/// The result is exactly `marker_json` of the two revisions, so by
/// `lemma_marker_round_trip` reading it back yields `data` again.
pub fn write_revision_to_file(data: &RevisionData) -> (s: String)
    ensures
        s@ == marker_json(data.current_rev.deep_view(), data.previous_rev.deep_view()),
{
    let mut out = String::new();
    out.append("{");
    out.append("\n  ");
    out.append("\"current_rev\"");
    out.append(":");
    out.append(" ");
    append_value(&mut out, &data.current_rev);
    out.append(",");
    out.append("\n  ");
    out.append("\"previous_rev\"");
    out.append(":");
    out.append(" ");
    append_value(&mut out, &data.previous_rev);
    out.append("\n");
    out.append("}");
    proof {
        assert(out@ =~= marker_json(data.current_rev.deep_view(), data.previous_rev.deep_view()));
    }
    out
}

// ---------------------------------------------------------------------------
// Reading a marker.
// ---------------------------------------------------------------------------

/// Skips whitespace from position `i` on; mirrors `p_ws`.
fn scan_ws(s: &Vec<char>, i: usize) -> (j: usize)
    requires
        i <= s@.len(),
    ensures
        i <= j <= s@.len(),
        p_ws(s@.skip(i as int)) == s@.skip(j as int),
{
    let mut j = i;
    while j < s.len() && (s[j] == ' ' || s[j] == '\n' || s[j] == '\t' || s[j] == '\r')
        invariant
            i <= j <= s@.len(),
            p_ws(s@.skip(i as int)) == p_ws(s@.skip(j as int)),
        decreases s@.len() - j,
    {
        proof {
            assert(s@.skip(j as int)[0] == s@[j as int]);
            assert(s@.skip(j as int).drop_first() =~= s@.skip(j + 1 as int));
        }
        j = j + 1;
    }
    proof {
        let t = s@.skip(j as int);
        if t.len() > 0 {
            assert(t[0] == s@[j as int]);
        }
        assert(p_ws(t) == t);
    }
    j
}

/// Consumes the literal `lit` at position `i`; mirrors `p_lit`.
fn scan_lit(s: &Vec<char>, i: usize, lit: &str) -> (r: Option<usize>)
    requires
        i <= s@.len(),
    ensures
        match r {
            Some(j) => i <= j <= s@.len() && p_lit(s@.skip(i as int), lit@) == Some(
                s@.skip(j as int),
            ),
            None => p_lit(s@.skip(i as int), lit@) is None,
        },
{
    let m = lit.unicode_len();
    if s.len() - i < m {
        proof {
            assert(s@.skip(i as int).len() < lit@.len());
        }
        return None;
    }
    let mut k: usize = 0;
    while k < m
        invariant
            k <= m,
            i + m <= s@.len(),
            s@.len() <= usize::MAX,
            m == lit@.len(),
            forall|t: int| 0 <= t < k ==> s@[i + t] == lit@[t],
        decreases m - k,
    {
        if s[i + k] != lit.get_char(k) {
            proof {
                let sub = s@.skip(i as int).subrange(0, lit@.len() as int);
                assert(sub[k as int] == s@[i + k]);
            }
            return None;
        }
        k = k + 1;
    }
    proof {
        assert(s@.skip(i as int).subrange(0, lit@.len() as int) =~= lit@);
        assert(s@.skip(i as int).skip(lit@.len() as int) =~= s@.skip(i + m as int));
    }
    Some(i + m)
}

/// The character a single-letter escape denotes, if any.
fn unescape_char(e: char) -> (r: Option<char>)
    ensures
        r == unescape(e),
{
    if e == '"' {
        Some('"')
    } else if e == '\\' {
        Some('\\')
    } else if e == '/' {
        Some('/')
    } else if e == 'b' {
        Some('\u{0008}')
    } else if e == 'f' {
        Some('\u{000C}')
    } else if e == 'n' {
        Some('\n')
    } else if e == 'r' {
        Some('\r')
    } else if e == 't' {
        Some('\t')
    } else {
        None
    }
}

/// The value of a base-16 digit character, if it is one.
fn hex_val_char(d: char) -> (r: Option<u8>)
    ensures
        is_hex(d) ==> (r matches Some(v) && v < 16 && v as int == hex_val(d)),
        !is_hex(d) ==> r is None,
{
    let u = d as u32;
    if u >= 48 && u <= 57 {
        Some((u - 48) as u8)
    } else if u >= 97 && u <= 102 {
        Some((u - 87) as u8)
    } else if u >= 65 && u <= 70 {
        Some((u - 55) as u8)
    } else {
        None
    }
}

/// Consumes a quoted string body from position `i`, after the opening quote;
/// mirrors `p_string`.
fn scan_string(s: &Vec<char>, i: usize) -> (r: Option<(Vec<char>, usize)>)
    requires
        i <= s@.len(),
    ensures
        match r {
            Some(p) => p.1 <= s@.len() && p_string(s@.skip(i as int)) == Some(
                (p.0@, s@.skip(p.1 as int)),
            ),
            None => p_string(s@.skip(i as int)) is None,
        },
    decreases s@.len() - i,
{
    if i == s.len() {
        return None;
    }
    let c = s[i];
    proof {
        assert(s@.skip(i as int)[0] == s@[i as int]);
    }
    if c == '"' {
        proof {
            assert(s@.skip(i as int).drop_first() =~= s@.skip(i + 1 as int));
        }
        let v: Vec<char> = Vec::new();
        proof {
            assert(v@ =~= Seq::<char>::empty());
        }
        return Some((v, i + 1));
    }
    if c == '\\' {
        if i + 1 == s.len() {
            return None;
        }
        let d = s[i + 1];
        proof {
            assert(s@.skip(i as int)[1] == s@[i + 1]);
        }
        if d == 'u' {
            if s.len() - i < 6 {
                proof {
                    assert(s@.skip(i as int).len() < 6);
                }
                return None;
            }
            proof {
                assert(s@.skip(i as int)[2] == s@[i + 2]);
                assert(s@.skip(i as int)[3] == s@[i + 3]);
                assert(s@.skip(i as int)[4] == s@[i + 4]);
                assert(s@.skip(i as int)[5] == s@[i + 5]);
            }
            if s[i + 2] != '0' || s[i + 3] != '0' {
                return None;
            }
            let v1 = match hex_val_char(s[i + 4]) {
                Some(v) => v,
                None => {
                    return None;
                },
            };
            let v2 = match hex_val_char(s[i + 5]) {
                Some(v) => v,
                None => {
                    return None;
                },
            };
            proof {
                assert(s@.skip(i as int).skip(6) =~= s@.skip(i + 6 as int));
            }
            match scan_string(s, i + 6) {
                Some((mut t, j)) => {
                    let mut v: Vec<char> = Vec::new();
                    v.push((16 * v1 + v2) as char);
                    v.append(&mut t);
                    proof {
                        assert(v@ =~= seq![(16 * hex_val(s@.skip(i as int)[4]) + hex_val(
                            s@.skip(i as int)[5],
                        )) as char] + p_string(s@.skip(i + 6 as int))->Some_0.0);
                    }
                    Some((v, j))
                },
                None => None,
            }
        } else {
            match unescape_char(d) {
                Some(ch) => {
                    proof {
                        assert(s@.skip(i as int).skip(2) =~= s@.skip(i + 2 as int));
                    }
                    match scan_string(s, i + 2) {
                        Some((mut t, j)) => {
                            let mut v: Vec<char> = Vec::new();
                            v.push(ch);
                            v.append(&mut t);
                            proof {
                                assert(v@ =~= seq![unescape(s@.skip(i as int)[1])->0] + p_string(
                                    s@.skip(i + 2 as int),
                                )->Some_0.0);
                            }
                            Some((v, j))
                        },
                        None => None,
                    }
                },
                None => None,
            }
        }
    } else {
        proof {
            assert(s@.skip(i as int).drop_first() =~= s@.skip(i + 1 as int));
        }
        match scan_string(s, i + 1) {
            Some((mut t, j)) => {
                let mut v: Vec<char> = Vec::new();
                v.push(c);
                v.append(&mut t);
                proof {
                    assert(v@ =~= seq![s@.skip(i as int)[0]] + p_string(
                        s@.skip(i + 1 as int),
                    )->Some_0.0);
                }
                Some((v, j))
            },
            None => None,
        }
    }
}

/// Consumes one revision field value from position `i`; mirrors `p_value`.
fn scan_value(s: &Vec<char>, i: usize) -> (r: Option<(Option<String>, usize)>)
    requires
        i <= s@.len(),
    ensures
        match r {
            Some(p) => p.1 <= s@.len() && p_value(s@.skip(i as int)) == Some(
                (p.0.deep_view(), s@.skip(p.1 as int)),
            ),
            None => p_value(s@.skip(i as int)) is None,
        },
{
    if i < s.len() && s[i] == '"' {
        proof {
            assert(s@.skip(i as int)[0] == s@[i as int]);
            assert(s@.skip(i as int).drop_first() =~= s@.skip(i + 1 as int));
        }
        match scan_string(s, i + 1) {
            Some((t, j)) => Some((Some(chars_to_string(t)), j)),
            None => None,
        }
    } else {
        proof {
            if i < s.len() {
                assert(s@.skip(i as int)[0] == s@[i as int]);
            }
        }
        match scan_lit(s, i, "null") {
            Some(j) => Some((None, j)),
            None => None,
        }
    }
}

/// Reads a marker text back into its revision pair, if it is well-formed;
/// mirrors `p_marker`.
pub fn parse_revision(s: &str) -> (r: Option<RevisionData>)
    ensures
        match p_marker(s@) {
            Some(pair) => r matches Some(d) && d.current_rev.deep_view() == pair.0
                && d.previous_rev.deep_view() == pair.1,
            None => r is None,
        },
{
    let v = str_chars(s);
    proof {
        assert(v@.skip(0) =~= s@);
    }
    let i0 = scan_ws(&v, 0);
    let i1 = match scan_lit(&v, i0, "{") {
        Some(j) => j,
        None => {
            return None;
        },
    };
    let i2 = scan_ws(&v, i1);
    let i3 = match scan_lit(&v, i2, "\"current_rev\"") {
        Some(j) => j,
        None => {
            return None;
        },
    };
    let i4 = scan_ws(&v, i3);
    let i5 = match scan_lit(&v, i4, ":") {
        Some(j) => j,
        None => {
            return None;
        },
    };
    let i6 = scan_ws(&v, i5);
    let (cur, i7) = match scan_value(&v, i6) {
        Some(p) => p,
        None => {
            return None;
        },
    };
    let i8 = scan_ws(&v, i7);
    let i9 = match scan_lit(&v, i8, ",") {
        Some(j) => j,
        None => {
            return None;
        },
    };
    let i10 = scan_ws(&v, i9);
    let i11 = match scan_lit(&v, i10, "\"previous_rev\"") {
        Some(j) => j,
        None => {
            return None;
        },
    };
    let i12 = scan_ws(&v, i11);
    let i13 = match scan_lit(&v, i12, ":") {
        Some(j) => j,
        None => {
            return None;
        },
    };
    let i14 = scan_ws(&v, i13);
    let (prev, i15) = match scan_value(&v, i14) {
        Some(p) => p,
        None => {
            return None;
        },
    };
    let i16 = scan_ws(&v, i15);
    let i17 = match scan_lit(&v, i16, "}") {
        Some(j) => j,
        None => {
            return None;
        },
    };
    let i18 = scan_ws(&v, i17);
    if i18 != v.len() {
        return None;
    }
    Some(RevisionData { current_rev: cur, previous_rev: prev })
}

/// The revision pair recorded in a marker file: the parsed contents where the
/// file was readable and well-formed, and the default pair everywhere else.
/// Never an error to the caller.
pub fn read_revision_from_file(content: Option<&str>) -> (d: RevisionData)
    ensures
        match content {
            Some(s) => match p_marker(s@) {
                Some(pair) => d.rev_pair() == pair,
                None => d.rev_pair() == (None::<Seq<char>>, None::<Seq<char>>),
            },
            None => d.rev_pair() == (None::<Seq<char>>, None::<Seq<char>>),
        },
{
    match content {
        Some(s) => match parse_revision(s) {
            Some(d) => d,
            None => RevisionData::default(),
        },
        None => RevisionData::default(),
    }
}

} // verus!
