//! The launch protocol's wire format.
//!
//! A request is one UTF-8 JSON object with the keys `command`,
//! `command_args` and `env`, followed by the sentinel bytes `\nEOM\n` (the
//! payload has no length prefix, so the server reads until it sees `EOM` on
//! a line of its own). The response is exactly one line: the literal text
//! `OK` is success, anything else is the server's error message, surfaced
//! verbatim. The JSON emitter here is part of the library and verified: it
//! escapes `"`, `\` and control characters as the JSON grammar requires and
//! keeps argument order and environment keys exactly as given.

use vstd::prelude::*;
use crate::errors::CoreError;
use crate::strutil::push_char;

verus! {

/// The hexadecimal digit character for one value below 16, lowercase.
pub open spec fn spec_hex_char(d: int) -> char {
    if d == 0 {
        '0'
    } else if d == 1 {
        '1'
    } else if d == 2 {
        '2'
    } else if d == 3 {
        '3'
    } else if d == 4 {
        '4'
    } else if d == 5 {
        '5'
    } else if d == 6 {
        '6'
    } else if d == 7 {
        '7'
    } else if d == 8 {
        '8'
    } else if d == 9 {
        '9'
    } else if d == 10 {
        'a'
    } else if d == 11 {
        'b'
    } else if d == 12 {
        'c'
    } else if d == 13 {
        'd'
    } else if d == 14 {
        'e'
    } else {
        'f'
    }
}

/// How one character appears inside a JSON string literal: `"` and `\` gain
/// a backslash, the control characters with short escapes use them, the
/// remaining control characters become `\u00xx`, and everything else passes
/// through unchanged.
pub open spec fn spec_json_escape_char(c: char) -> Seq<char> {
    if c == '"' {
        seq!['\\', '"']
    } else if c == '\\' {
        seq!['\\', '\\']
    } else if c == '\n' {
        seq!['\\', 'n']
    } else if c == '\r' {
        seq!['\\', 'r']
    } else if c == '\t' {
        seq!['\\', 't']
    } else if c == '\u{0008}' {
        seq!['\\', 'b']
    } else if c == '\u{000C}' {
        seq!['\\', 'f']
    } else if (c as u32) < 32 {
        seq!['\\', 'u', '0', '0', spec_hex_char((c as u32) as int / 16), spec_hex_char(
            (c as u32) as int % 16,
        )]
    } else {
        seq![c]
    }
}

/// The body of a JSON string literal, character by character in order.
pub open spec fn spec_json_escape(s: Seq<char>) -> Seq<char>
    decreases s.len(),
{
    if s.len() == 0 {
        Seq::empty()
    } else {
        spec_json_escape_char(s[0]) + spec_json_escape(s.drop_first())
    }
}

/// A complete JSON string literal, quotes included.
pub open spec fn spec_json_string(s: Seq<char>) -> Seq<char> {
    seq!['"'] + spec_json_escape(s) + seq!['"']
}

/// Comma-separated JSON string literals, in order.
pub open spec fn spec_json_string_list(items: Seq<Seq<char>>) -> Seq<char>
    decreases items.len(),
{
    if items.len() == 0 {
        Seq::empty()
    } else if items.len() == 1 {
        spec_json_string(items[0])
    } else {
        spec_json_string_list(items.drop_last()) + seq![','] + spec_json_string(items.last())
    }
}

/// Comma-separated JSON object members with string values, in order.
pub open spec fn spec_json_members(items: Seq<(Seq<char>, Seq<char>)>) -> Seq<char>
    decreases items.len(),
{
    if items.len() == 0 {
        Seq::empty()
    } else if items.len() == 1 {
        spec_json_string(items[0].0) + seq![':'] + spec_json_string(items[0].1)
    } else {
        spec_json_members(items.drop_last()) + seq![','] + spec_json_string(items.last().0)
            + seq![':'] + spec_json_string(items.last().1)
    }
}

/// The single JSON document sent for a launch request.
pub open spec fn spec_request_json(
    command: Seq<char>,
    args: Seq<Seq<char>>,
    env: Seq<(Seq<char>, Seq<char>)>,
) -> Seq<char> {
    "{\"command\":"@ + spec_json_string(command) + ",\"command_args\":["@ + spec_json_string_list(
        args,
    ) + "],\"env\":{"@ + spec_json_members(env) + "}}"@
}

/// A launch request as sent to the leader: a command path, its arguments in
/// order, and a flat environment mapping.
pub struct LaunchRequest {
    pub command: String,
    pub command_args: Vec<String>,
    pub env: Vec<(String, String)>,
}

impl LaunchRequest {
    pub open spec fn args_view(&self) -> Seq<Seq<char>> {
        self.command_args@.map_values(|s: String| s@)
    }

    pub open spec fn env_view(&self) -> Seq<(Seq<char>, Seq<char>)> {
        self.env@.map_values(|kv: (String, String)| (kv.0@, kv.1@))
    }

    /// Everything written to the connection for this request: the JSON
    /// document, then the sentinel.
    pub open spec fn wire_view(&self) -> Seq<char> {
        spec_request_json(self.command@, self.args_view(), self.env_view()) + "\nEOM\n"@
    }
}

/// Escaping distributes over appending one character at the end.
proof fn lemma_json_escape_push(s: Seq<char>, c: char)
    ensures
        spec_json_escape(s.push(c)) == spec_json_escape(s) + spec_json_escape_char(c),
    decreases s.len(),
{
    if s.len() == 0 {
        assert(s.push(c)[0] == c);
        assert(s.push(c).drop_first() =~= Seq::<char>::empty());
        assert(spec_json_escape(s.push(c).drop_first()) == Seq::<char>::empty());
        assert(spec_json_escape(s) == Seq::<char>::empty());
        assert(spec_json_escape(s.push(c)) =~= spec_json_escape(s) + spec_json_escape_char(c));
    } else {
        assert(s.push(c).drop_first() =~= s.drop_first().push(c));
        lemma_json_escape_push(s.drop_first(), c);
        assert(s.push(c)[0] == s[0]);
        assert(spec_json_escape(s.push(c)) =~= spec_json_escape(s) + spec_json_escape_char(c));
    }
}

/// Runtime form of [`spec_hex_char`].
fn hex_char(d: u32) -> (r: char)
    requires
        d < 16,
    ensures
        r == spec_hex_char(d as int),
{
    if d == 0 {
        '0'
    } else if d == 1 {
        '1'
    } else if d == 2 {
        '2'
    } else if d == 3 {
        '3'
    } else if d == 4 {
        '4'
    } else if d == 5 {
        '5'
    } else if d == 6 {
        '6'
    } else if d == 7 {
        '7'
    } else if d == 8 {
        '8'
    } else if d == 9 {
        '9'
    } else if d == 10 {
        'a'
    } else if d == 11 {
        'b'
    } else if d == 12 {
        'c'
    } else if d == 13 {
        'd'
    } else if d == 14 {
        'e'
    } else {
        'f'
    }
}

/// Appends one character's JSON-escaped form.
fn push_json_escaped_char(out: &mut String, c: char)
    ensures
        final(out)@ == old(out)@ + spec_json_escape_char(c),
{
    if c == '"' {
        push_char(out, '\\');
        push_char(out, '"');
    } else if c == '\\' {
        push_char(out, '\\');
        push_char(out, '\\');
    } else if c == '\n' {
        push_char(out, '\\');
        push_char(out, 'n');
    } else if c == '\r' {
        push_char(out, '\\');
        push_char(out, 'r');
    } else if c == '\t' {
        push_char(out, '\\');
        push_char(out, 't');
    } else if c == '\u{0008}' {
        push_char(out, '\\');
        push_char(out, 'b');
    } else if c == '\u{000C}' {
        push_char(out, '\\');
        push_char(out, 'f');
    } else if (c as u32) < 32 {
        push_char(out, '\\');
        push_char(out, 'u');
        push_char(out, '0');
        push_char(out, '0');
        push_char(out, hex_char((c as u32) / 16));
        push_char(out, hex_char((c as u32) % 16));
    } else {
        push_char(out, c);
    }
    proof {
        assert(out@ =~= old(out)@ + spec_json_escape_char(c));
    }
}

/// Appends a complete JSON string literal for `s`.
fn append_json_string(out: &mut String, s: &str)
    ensures
        final(out)@ == old(out)@ + spec_json_string(s@),
{
    let n = s.unicode_len();
    push_char(out, '"');
    let mut i: usize = 0;
    while i < n
        invariant
            i <= n,
            n == s@.len(),
            out@ == old(out)@ + seq!['"'] + spec_json_escape(s@.subrange(0, i as int)),
        decreases n - i,
    {
        let c = s.get_char(i);
        push_json_escaped_char(out, c);
        proof {
            lemma_json_escape_push(s@.subrange(0, i as int), c);
            assert(s@.subrange(0, i as int).push(c) =~= s@.subrange(0, (i + 1) as int));
            assert(out@ =~= old(out)@ + seq!['"'] + spec_json_escape(
                s@.subrange(0, (i + 1) as int),
            ));
        }
        i = i + 1;
    }
    push_char(out, '"');
    proof {
        assert(s@.subrange(0, n as int) =~= s@);
        assert(out@ =~= old(out)@ + spec_json_string(s@));
    }
}

/// Serializes a launch request to everything the connection must carry: the
/// JSON document — command, arguments in order, environment members in order
/// — followed by the `\nEOM\n` sentinel.
pub fn encode_request(req: &LaunchRequest) -> (r: String)
    ensures
        r@ == req.wire_view(),
{
    let ghost arg_views = req.args_view();
    let ghost env_views = req.env_view();
    let mut out = String::from_str("{\"command\":");
    append_json_string(&mut out, req.command.as_str());
    out.append(",\"command_args\":[");
    let na = req.command_args.len();
    let mut i: usize = 0;
    while i < na
        invariant
            i <= na,
            na == req.command_args@.len(),
            arg_views == req.args_view(),
            out@ == "{\"command\":"@ + spec_json_string(req.command@) + ",\"command_args\":["@
                + spec_json_string_list(arg_views.subrange(0, i as int)),
        decreases na - i,
    {
        if i > 0 {
            push_char(&mut out, ',');
        }
        append_json_string(&mut out, req.command_args[i].as_str());
        proof {
            let pre = arg_views.subrange(0, (i + 1) as int);
            assert(pre.drop_last() =~= arg_views.subrange(0, i as int));
            assert(pre.last() == req.command_args@[i as int]@);
            assert(out@ =~= "{\"command\":"@ + spec_json_string(req.command@)
                + ",\"command_args\":["@ + spec_json_string_list(pre));
        }
        i = i + 1;
    }
    proof {
        assert(arg_views.subrange(0, na as int) =~= arg_views);
    }
    out.append("],\"env\":{");
    let ne = req.env.len();
    let mut j: usize = 0;
    while j < ne
        invariant
            j <= ne,
            ne == req.env@.len(),
            arg_views == req.args_view(),
            env_views == req.env_view(),
            out@ == "{\"command\":"@ + spec_json_string(req.command@) + ",\"command_args\":["@
                + spec_json_string_list(arg_views) + "],\"env\":{"@ + spec_json_members(
                env_views.subrange(0, j as int),
            ),
        decreases ne - j,
    {
        if j > 0 {
            push_char(&mut out, ',');
        }
        append_json_string(&mut out, req.env[j].0.as_str());
        push_char(&mut out, ':');
        append_json_string(&mut out, req.env[j].1.as_str());
        proof {
            let pre = env_views.subrange(0, (j + 1) as int);
            assert(pre.drop_last() =~= env_views.subrange(0, j as int));
            assert(pre.last() == (req.env@[j as int].0@, req.env@[j as int].1@));
            assert(out@ =~= "{\"command\":"@ + spec_json_string(req.command@)
                + ",\"command_args\":["@ + spec_json_string_list(arg_views) + "],\"env\":{"@
                + spec_json_members(pre));
        }
        j = j + 1;
    }
    proof {
        assert(env_views.subrange(0, ne as int) =~= env_views);
    }
    out.append("}}");
    out.append("\nEOM\n");
    proof {
        assert(out@ =~= req.wire_view());
    }
    out
}

/// The value of one hexadecimal digit character, or -1 where it is none.
pub open spec fn spec_hex_val(c: char) -> int {
    if c == '0' {
        0
    } else if c == '1' {
        1
    } else if c == '2' {
        2
    } else if c == '3' {
        3
    } else if c == '4' {
        4
    } else if c == '5' {
        5
    } else if c == '6' {
        6
    } else if c == '7' {
        7
    } else if c == '8' {
        8
    } else if c == '9' {
        9
    } else if c == 'a' {
        10
    } else if c == 'b' {
        11
    } else if c == 'c' {
        12
    } else if c == 'd' {
        13
    } else if c == 'e' {
        14
    } else if c == 'f' {
        15
    } else {
        -1
    }
}

/// Reads a JSON string-literal body back, inverting exactly the escapes the
/// emitter produces; `None` where the text is not of that form.
pub open spec fn spec_json_unescape(s: Seq<char>) -> Option<Seq<char>>
    decreases s.len(),
{
    if s.len() == 0 {
        Some(Seq::empty())
    } else if s[0] != '\\' {
        match spec_json_unescape(s.drop_first()) {
            Some(rest) => Some(seq![s[0]] + rest),
            None => None,
        }
    } else if s.len() >= 2 && (s[1] == '"' || s[1] == '\\') {
        match spec_json_unescape(s.subrange(2, s.len() as int)) {
            Some(rest) => Some(seq![s[1]] + rest),
            None => None,
        }
    } else if s.len() >= 2 && s[1] == 'n' {
        match spec_json_unescape(s.subrange(2, s.len() as int)) {
            Some(rest) => Some(seq!['\n'] + rest),
            None => None,
        }
    } else if s.len() >= 2 && s[1] == 'r' {
        match spec_json_unescape(s.subrange(2, s.len() as int)) {
            Some(rest) => Some(seq!['\r'] + rest),
            None => None,
        }
    } else if s.len() >= 2 && s[1] == 't' {
        match spec_json_unescape(s.subrange(2, s.len() as int)) {
            Some(rest) => Some(seq!['\t'] + rest),
            None => None,
        }
    } else if s.len() >= 2 && s[1] == 'b' {
        match spec_json_unescape(s.subrange(2, s.len() as int)) {
            Some(rest) => Some(seq!['\u{0008}'] + rest),
            None => None,
        }
    } else if s.len() >= 2 && s[1] == 'f' {
        match spec_json_unescape(s.subrange(2, s.len() as int)) {
            Some(rest) => Some(seq!['\u{000C}'] + rest),
            None => None,
        }
    } else if s.len() >= 6 && s[1] == 'u' && s[2] == '0' && s[3] == '0' && spec_hex_val(s[4]) >= 0
        && spec_hex_val(s[5]) >= 0 {
        match spec_json_unescape(s.subrange(6, s.len() as int)) {
            Some(rest) => Some(
                seq![(((spec_hex_val(s[4]) * 16 + spec_hex_val(s[5])) as u32) as char)] + rest,
            ),
            None => None,
        }
    } else {
        None
    }
}

/// Round-trip law: JSON escaping loses nothing — reading an escaped string
/// back yields exactly the original, so two requests whose serialized forms
/// agree held the same command text, the same arguments in the same order
/// and the same environment entries.
pub proof fn lemma_json_escape_lossless(s: Seq<char>)
    ensures
        spec_json_unescape(spec_json_escape(s)) == Some(s),
    decreases s.len(),
{
    if s.len() == 0 {
    } else {
        lemma_json_escape_lossless(s.drop_first());
        let c = s[0];
        let e = spec_json_escape_char(c);
        let rest = spec_json_escape(s.drop_first());
        let whole = e + rest;
        assert(spec_json_escape(s) == whole);
        assert(seq![c] + s.drop_first() =~= s);
        if c == '"' || c == '\\' || c == '\n' || c == '\r' || c == '\t' || c == '\u{0008}' || c
            == '\u{000C}' {
            assert(whole.subrange(2, whole.len() as int) =~= rest);
            assert(spec_json_unescape(whole) == Some(s));
        } else if (c as u32) < 32 {
            let hi = (c as u32) as int / 16;
            let lo = (c as u32) as int % 16;
            assert(spec_hex_val(spec_hex_char(hi)) == hi);
            assert(spec_hex_val(spec_hex_char(lo)) == lo);
            assert(whole.subrange(6, whole.len() as int) =~= rest);
            assert(hi * 16 + lo == c as u32);
            vstd::utf8::char_u32_cast(c, (hi * 16 + lo) as u32);
            assert((((hi * 16 + lo) as u32) as char) == c);
            assert(spec_json_unescape(whole) == Some(s));
        } else {
            assert(whole[0] == c && c != '\\');
            assert(whole.drop_first() =~= rest);
            assert(spec_json_unescape(whole) == Some(s));
        }
    }
}

/// Reads one JSON string-literal body out of `t`, starting at `i` (just
/// past the opening quote): the decoded string and the position just past
/// the closing quote.
pub open spec fn parse_string_body_from(t: Seq<char>, i: int) -> Option<(Seq<char>, int)>
    decreases t.len() - i,
{
    if i < 0 || i >= t.len() {
        None
    } else if t[i] == '"' {
        Some((Seq::empty(), i + 1))
    } else if t[i] == '\\' {
        if i + 2 <= t.len() && (t[i + 1] == '"' || t[i + 1] == '\\') {
            match parse_string_body_from(t, i + 2) {
                Some(p) => Some((seq![t[i + 1]] + p.0, p.1)),
                None => None,
            }
        } else if i + 2 <= t.len() && t[i + 1] == 'n' {
            match parse_string_body_from(t, i + 2) {
                Some(p) => Some((seq!['\n'] + p.0, p.1)),
                None => None,
            }
        } else if i + 2 <= t.len() && t[i + 1] == 'r' {
            match parse_string_body_from(t, i + 2) {
                Some(p) => Some((seq!['\r'] + p.0, p.1)),
                None => None,
            }
        } else if i + 2 <= t.len() && t[i + 1] == 't' {
            match parse_string_body_from(t, i + 2) {
                Some(p) => Some((seq!['\t'] + p.0, p.1)),
                None => None,
            }
        } else if i + 2 <= t.len() && t[i + 1] == 'b' {
            match parse_string_body_from(t, i + 2) {
                Some(p) => Some((seq!['\u{0008}'] + p.0, p.1)),
                None => None,
            }
        } else if i + 2 <= t.len() && t[i + 1] == 'f' {
            match parse_string_body_from(t, i + 2) {
                Some(p) => Some((seq!['\u{000C}'] + p.0, p.1)),
                None => None,
            }
        } else if i + 6 <= t.len() && t[i + 1] == 'u' && t[i + 2] == '0' && t[i + 3] == '0'
            && spec_hex_val(t[i + 4]) >= 0 && spec_hex_val(t[i + 5]) >= 0 {
            match parse_string_body_from(t, i + 6) {
                Some(p) => Some(
                    (
                        seq![(((spec_hex_val(t[i + 4]) * 16 + spec_hex_val(t[i + 5])) as u32) as char)]
                            + p.0,
                        p.1,
                    ),
                ),
                None => None,
            }
        } else {
            None
        }
    } else {
        match parse_string_body_from(t, i + 1) {
            Some(p) => Some((seq![t[i]] + p.0, p.1)),
            None => None,
        }
    }
}

/// A parsed string literal always makes progress and stays inside the text.
pub proof fn lemma_parse_body_bounds(t: Seq<char>, i: int)
    ensures
        parse_string_body_from(t, i) matches Some(p) ==> i < p.1 <= t.len() as int,
    decreases t.len() - i,
{
    if 0 <= i < t.len() {
        lemma_parse_body_bounds(t, i + 1);
        if i + 2 <= t.len() {
            lemma_parse_body_bounds(t, i + 2);
        }
        if i + 6 <= t.len() {
            lemma_parse_body_bounds(t, i + 6);
        }
    }
}

/// Parsing recovers an escaped string exactly: wherever the emitter placed
/// `spec_json_escape(s)` followed by the closing quote, the parser reads
/// back `s` and stops right after that quote.
pub proof fn lemma_parse_body_of_escape(x: Seq<char>, s: Seq<char>, y: Seq<char>)
    ensures
        parse_string_body_from(x + spec_json_escape(s) + seq!['"'] + y, x.len() as int) == Some(
            (s, x.len() + spec_json_escape(s).len() + 1int),
        ),
    decreases s.len(),
{
    let t = x + spec_json_escape(s) + seq!['"'] + y;
    let i = x.len() as int;
    if s.len() == 0 {
        assert(spec_json_escape(s) == Seq::<char>::empty());
        assert(t[i] == '"');
        assert(s =~= Seq::<char>::empty());
    } else {
        let c = s[0];
        let e = spec_json_escape_char(c);
        let rest = s.drop_first();
        let x2 = x + e;
        lemma_parse_body_of_escape(x2, rest, y);
        let t2 = x2 + spec_json_escape(rest) + seq!['"'] + y;
        assert(spec_json_escape(s) == e + spec_json_escape(rest));
        assert(t =~= t2);
        assert(seq![c] + rest =~= s);
        assert forall|k: int| 0 <= k < e.len() implies t[i + k] == e[k] by {
            assert(t2[x.len() + k] == e[k]);
        }
        if c == '"' || c == '\\' || c == '\n' || c == '\r' || c == '\t' || c == '\u{0008}' || c
            == '\u{000C}' {
            assert(t[i] == '\\');
            assert(parse_string_body_from(t, i + 2) == Some(
                (rest, x2.len() + spec_json_escape(rest).len() + 1int),
            ));
        } else if (c as u32) < 32 {
            let hi = (c as u32) as int / 16;
            let lo = (c as u32) as int % 16;
            assert(spec_hex_val(spec_hex_char(hi)) == hi);
            assert(spec_hex_val(spec_hex_char(lo)) == lo);
            assert(t[i] == '\\' && t[i + 1] == 'u' && t[i + 2] == '0' && t[i + 3] == '0');
            vstd::utf8::char_u32_cast(c, (hi * 16 + lo) as u32);
            assert(parse_string_body_from(t, i + 6) == Some(
                (rest, x2.len() + spec_json_escape(rest).len() + 1int),
            ));
        } else {
            assert(t[i] == c && c != '"' && c != '\\');
            assert(parse_string_body_from(t, i + 1) == Some(
                (rest, x2.len() + spec_json_escape(rest).len() + 1int),
            ));
        }
    }
}

/// Reads a JSON array of string literals out of `t`, starting just past the
/// opening bracket: the decoded strings in order and the position just past
/// the closing bracket.
pub open spec fn parse_string_list_from(t: Seq<char>, i: int) -> Option<(Seq<Seq<char>>, int)>
    decreases t.len() - i,
    via parse_string_list_from_decreases
{
    if i < 0 || i >= t.len() {
        None
    } else if t[i] == ']' {
        Some((Seq::empty(), i + 1))
    } else if t[i] == '"' {
        match parse_string_body_from(t, i + 1) {
            Some(p) => {
                if p.1 < t.len() && t[p.1] == ',' {
                    match parse_string_list_from(t, p.1 + 1) {
                        Some(q) => if q.0.len() >= 1 {
                            Some((seq![p.0] + q.0, q.1))
                        } else {
                            None
                        },
                        None => None,
                    }
                } else if p.1 < t.len() && t[p.1] == ']' {
                    Some((seq![p.0], p.1 + 1))
                } else {
                    None
                }
            },
            None => None,
        }
    } else {
        None
    }
}

#[via_fn]
proof fn parse_string_list_from_decreases(t: Seq<char>, i: int) {
    lemma_parse_body_bounds(t, i + 1);
}

/// A nonempty comma-joined list starts with its first literal.
proof fn lemma_string_list_front(items: Seq<Seq<char>>)
    requires
        items.len() >= 2,
    ensures
        spec_json_string_list(items) == spec_json_string(items[0]) + seq![',']
            + spec_json_string_list(items.drop_first()),
    decreases items.len(),
{
    if items.len() == 2 {
        assert(items.drop_last() =~= seq![items[0]]);
        assert(items.drop_first() =~= seq![items[1]]);
        assert(spec_json_string_list(seq![items[0]]) == spec_json_string(items[0]));
        assert(spec_json_string_list(seq![items[1]]) == spec_json_string(items[1]));
        assert(spec_json_string_list(items) =~= spec_json_string(items[0]) + seq![',']
            + spec_json_string_list(items.drop_first()));
    } else {
        lemma_string_list_front(items.drop_last());
        assert(items.drop_last()[0] == items[0]);
        assert(items.drop_first().drop_last() =~= items.drop_last().drop_first());
        assert(items.drop_first().last() == items.last());
        assert(items.drop_first().len() >= 2);
        assert(spec_json_string_list(items.drop_first()) == spec_json_string_list(
            items.drop_first().drop_last(),
        ) + seq![','] + spec_json_string(items.drop_first().last()));
        assert(spec_json_string_list(items) =~= spec_json_string(items[0]) + seq![',']
            + spec_json_string_list(items.drop_first()));
    }
}

/// Parsing recovers an emitted array of strings exactly, stopping just past
/// the closing bracket.
#[verifier::rlimit(60)]
proof fn lemma_parse_list_of_emit(x: Seq<char>, items: Seq<Seq<char>>, y: Seq<char>)
    ensures
        parse_string_list_from(x + spec_json_string_list(items) + seq![']'] + y, x.len() as int)
            == Some((items, x.len() + spec_json_string_list(items).len() + 1int)),
    decreases items.len(),
{
    let t = x + spec_json_string_list(items) + seq![']'] + y;
    let i = x.len() as int;
    if items.len() == 0 {
        assert(t[i] == ']');
        assert(items =~= Seq::<Seq<char>>::empty());
    } else if items.len() == 1 {
        assert(spec_json_string_list(items) == spec_json_string(items[0]));
        assert(t =~= (x + seq!['"']) + spec_json_escape(items[0]) + seq!['"'] + (seq![']'] + y));
        lemma_parse_body_of_escape(x + seq!['"'], items[0], seq![']'] + y);
        let j = x.len() + 1 + spec_json_escape(items[0]).len() + 1int;
        assert(t[i] == '"');
        assert(t[j] == ']');
        assert(seq![items[0]] =~= items);
        assert(parse_string_list_from(t, i) == Some(
            (items, x.len() + spec_json_string_list(items).len() + 1int),
        ));
    } else {
        lemma_string_list_front(items);
        let rest = items.drop_first();
        let x2 = x + spec_json_string(items[0]) + seq![','];
        assert(t =~= (x + seq!['"']) + spec_json_escape(items[0]) + seq!['"'] + (seq![',']
            + spec_json_string_list(rest) + seq![']'] + y));
        lemma_parse_body_of_escape(x + seq!['"'], items[0], seq![','] + spec_json_string_list(rest)
            + seq![']'] + y);
        let j = x.len() + 1 + spec_json_escape(items[0]).len() + 1int;
        assert(t[i] == '"');
        assert(t[j] == ',');
        assert(t =~= x2 + spec_json_string_list(rest) + seq![']'] + y);
        lemma_parse_list_of_emit(x2, rest, y);
        assert(parse_string_list_from(t, j + 1) == Some(
            (rest, x2.len() + spec_json_string_list(rest).len() + 1int),
        ));
        assert(seq![items[0]] + rest =~= items);
        assert(parse_string_list_from(t, i) == Some(
            (items, x.len() + spec_json_string_list(items).len() + 1int),
        ));
    }
}

/// Reads one `"key":"value"` member out of `t`, starting at the key's
/// opening quote.
pub open spec fn parse_member_from(t: Seq<char>, i: int) -> Option<((Seq<char>, Seq<char>), int)> {
    if 0 <= i < t.len() && t[i] == '"' {
        match parse_string_body_from(t, i + 1) {
            Some(p) => if p.1 + 1 < t.len() && t[p.1] == ':' && t[p.1 + 1] == '"' {
                match parse_string_body_from(t, p.1 + 2) {
                    Some(q) => Some(((p.0, q.0), q.1)),
                    None => None,
                }
            } else {
                None
            },
            None => None,
        }
    } else {
        None
    }
}

/// A parsed member always makes progress and stays inside the text.
proof fn lemma_parse_member_bounds(t: Seq<char>, i: int)
    ensures
        parse_member_from(t, i) matches Some(p) ==> i < p.1 <= t.len() as int,
{
    lemma_parse_body_bounds(t, i + 1);
    match parse_string_body_from(t, i + 1) {
        Some(p) => {
            lemma_parse_body_bounds(t, p.1 + 2);
        },
        None => {},
    }
}

/// Reads a JSON object of string-valued members out of `t`, starting just
/// past the opening brace: the members in order and the position just past
/// the closing brace.
pub open spec fn parse_members_from(t: Seq<char>, i: int) -> Option<
    (Seq<(Seq<char>, Seq<char>)>, int),
>
    decreases t.len() - i,
    via parse_members_from_decreases
{
    if i < 0 || i >= t.len() {
        None
    } else if t[i] == '}' {
        Some((Seq::empty(), i + 1))
    } else {
        match parse_member_from(t, i) {
            Some(p) => {
                if p.1 < t.len() && t[p.1] == ',' {
                    match parse_members_from(t, p.1 + 1) {
                        Some(q) => if q.0.len() >= 1 {
                            Some((seq![p.0] + q.0, q.1))
                        } else {
                            None
                        },
                        None => None,
                    }
                } else if p.1 < t.len() && t[p.1] == '}' {
                    Some((seq![p.0], p.1 + 1))
                } else {
                    None
                }
            },
            None => None,
        }
    }
}

#[via_fn]
proof fn parse_members_from_decreases(t: Seq<char>, i: int) {
    lemma_parse_member_bounds(t, i);
}

/// The emitted form of one member.
pub open spec fn spec_json_member(kv: (Seq<char>, Seq<char>)) -> Seq<char> {
    spec_json_string(kv.0) + seq![':'] + spec_json_string(kv.1)
}

/// A nonempty comma-joined member list starts with its first member.
proof fn lemma_members_front(items: Seq<(Seq<char>, Seq<char>)>)
    requires
        items.len() >= 2,
    ensures
        spec_json_members(items) == spec_json_member(items[0]) + seq![','] + spec_json_members(
            items.drop_first(),
        ),
    decreases items.len(),
{
    if items.len() == 2 {
        assert(items.drop_last() =~= seq![items[0]]);
        assert(items.drop_first() =~= seq![items[1]]);
        assert(spec_json_members(seq![items[0]]) == spec_json_member(items[0]));
        assert(spec_json_members(seq![items[1]]) == spec_json_member(items[1]));
        assert(spec_json_members(items) =~= spec_json_member(items[0]) + seq![',']
            + spec_json_members(items.drop_first()));
    } else {
        lemma_members_front(items.drop_last());
        assert(items.drop_last()[0] == items[0]);
        assert(items.drop_first().drop_last() =~= items.drop_last().drop_first());
        assert(items.drop_first().last() == items.last());
        assert(items.drop_first().len() >= 2);
        assert(spec_json_members(items.drop_first()) == spec_json_members(
            items.drop_first().drop_last(),
        ) + seq![','] + spec_json_member(items.drop_first().last()));
        assert(spec_json_members(items) =~= spec_json_member(items[0]) + seq![',']
            + spec_json_members(items.drop_first()));
    }
}

/// Parsing one emitted member recovers its key and value exactly.
#[verifier::rlimit(60)]
proof fn lemma_parse_member_of_emit(x: Seq<char>, kv: (Seq<char>, Seq<char>), y: Seq<char>)
    requires
        y.len() >= 1,
    ensures
        parse_member_from(x + spec_json_member(kv) + y, x.len() as int) == Some(
            (kv, x.len() + spec_json_member(kv).len() as int),
        ),
{
    let t = x + spec_json_member(kv) + y;
    let i = x.len() as int;
    assert(t =~= (x + seq!['"']) + spec_json_escape(kv.0) + seq!['"'] + (seq![':']
        + spec_json_string(kv.1) + y));
    lemma_parse_body_of_escape(x + seq!['"'], kv.0, seq![':'] + spec_json_string(kv.1) + y);
    let j = x.len() + 1 + spec_json_escape(kv.0).len() + 1int;
    assert(t[i] == '"');
    assert(t[j] == ':');
    assert(t[j + 1] == '"');
    let x2 = x + spec_json_string(kv.0) + seq![':'] + seq!['"'];
    assert(t =~= x2 + spec_json_escape(kv.1) + seq!['"'] + y);
    lemma_parse_body_of_escape(x2, kv.1, y);
    assert(parse_string_body_from(t, j + 2) == Some(
        (kv.1, x2.len() + spec_json_escape(kv.1).len() + 1int),
    ));
}

/// Parsing recovers an emitted object of members exactly, stopping just past
/// the closing brace.
#[verifier::rlimit(60)]
proof fn lemma_parse_members_of_emit(x: Seq<char>, items: Seq<(Seq<char>, Seq<char>)>, y: Seq<char>)
    ensures
        parse_members_from(x + spec_json_members(items) + seq!['}'] + y, x.len() as int) == Some(
            (items, x.len() + spec_json_members(items).len() + 1int),
        ),
    decreases items.len(),
{
    let t = x + spec_json_members(items) + seq!['}'] + y;
    let i = x.len() as int;
    if items.len() == 0 {
        assert(t[i] == '}');
        assert(items =~= Seq::<(Seq<char>, Seq<char>)>::empty());
    } else if items.len() == 1 {
        assert(spec_json_members(items) == spec_json_member(items[0]));
        assert(t =~= x + spec_json_member(items[0]) + (seq!['}'] + y));
        lemma_parse_member_of_emit(x, items[0], seq!['}'] + y);
        let j = x.len() + spec_json_member(items[0]).len() as int;
        assert(t[j] == '}');
        assert(t[i] == '"');
        assert(seq![items[0]] =~= items);
        assert(parse_members_from(t, i) == Some(
            (items, x.len() + spec_json_members(items).len() + 1int),
        ));
    } else {
        lemma_members_front(items);
        let rest = items.drop_first();
        let x2 = x + spec_json_member(items[0]) + seq![','];
        assert(t =~= x + spec_json_member(items[0]) + (seq![','] + spec_json_members(rest)
            + seq!['}'] + y));
        lemma_parse_member_of_emit(x, items[0], seq![','] + spec_json_members(rest) + seq!['}']
            + y);
        let j = x.len() + spec_json_member(items[0]).len() as int;
        assert(t[i] == '"');
        assert(t[j] == ',');
        assert(t =~= x2 + spec_json_members(rest) + seq!['}'] + y);
        lemma_parse_members_of_emit(x2, rest, y);
        assert(parse_members_from(t, j + 1) == Some(
            (rest, x2.len() + spec_json_members(rest).len() + 1int),
        ));
        assert(seq![items[0]] + rest =~= items);
        assert(parse_members_from(t, i) == Some(
            (items, x.len() + spec_json_members(items).len() + 1int),
        ));
    }
}

/// Reads a whole launch-request document back: the command, the arguments in
/// order and the environment members in order — `None` for any text not of
/// the emitted shape.
pub open spec fn spec_parse_request(t: Seq<char>) -> Option<
    (Seq<char>, Seq<Seq<char>>, Seq<(Seq<char>, Seq<char>)>),
> {
    let p1 = "{\"command\":"@;
    let p2 = ",\"command_args\":["@;
    let p3 = ",\"env\":{"@;
    if t.len() > p1.len() && t.subrange(0, p1.len() as int) == p1 && t[p1.len() as int] == '"' {
        match parse_string_body_from(t, p1.len() + 1int) {
            Some(c) => if c.1 + p2.len() <= t.len() && t.subrange(c.1, c.1 + p2.len() as int)
                == p2 {
                match parse_string_list_from(t, c.1 + p2.len() as int) {
                    Some(a) => if a.1 + p3.len() <= t.len() && t.subrange(
                        a.1,
                        a.1 + p3.len() as int,
                    ) == p3 {
                        match parse_members_from(t, a.1 + p3.len() as int) {
                            Some(e) => if e.1 == t.len() - 1 && t[e.1] == '}' {
                                Some((c.0, a.0, e.0))
                            } else {
                                None
                            },
                            None => None,
                        }
                    } else {
                        None
                    },
                    None => None,
                }
            } else {
                None
            },
            None => None,
        }
    } else {
        None
    }
}

/// Serialization round trip: parsing an emitted launch-request document
/// yields exactly the command, the arguments in their order and the
/// environment entries that went in — serialization observably loses
/// nothing. In particular two requests with the same wire form were equal.
#[verifier::rlimit(100)]
pub proof fn lemma_request_round_trip(
    command: Seq<char>,
    args: Seq<Seq<char>>,
    env: Seq<(Seq<char>, Seq<char>)>,
)
    ensures
        spec_parse_request(spec_request_json(command, args, env)) == Some((command, args, env)),
{
    let p1 = "{\"command\":"@;
    let p2 = ",\"command_args\":["@;
    let p3full = "],\"env\":{"@;
    let p3 = ",\"env\":{"@;
    let p4 = "}}"@;
    reveal_strlit("],\"env\":{");
    reveal_strlit(",\"env\":{");
    reveal_strlit("}}");
    assert(p3full =~= seq![']'] + p3);
    assert(p4 =~= seq!['}'] + seq!['}']);
    let t = spec_request_json(command, args, env);
    assert(t == p1 + spec_json_string(command) + p2 + spec_json_string_list(args) + p3full
        + spec_json_members(env) + p4);
    assert(t.subrange(0, p1.len() as int) =~= p1);
    assert(t[p1.len() as int] == '"');

    let y1 = p2 + spec_json_string_list(args) + p3full + spec_json_members(env) + p4;
    assert(t =~= (p1 + seq!['"']) + spec_json_escape(command) + seq!['"'] + y1);
    lemma_parse_body_of_escape(p1 + seq!['"'], command, y1);
    let j = p1.len() + spec_json_string(command).len() as int;
    assert(parse_string_body_from(t, p1.len() + 1int) == Some((command, j)));
    assert(t.subrange(j, j + p2.len() as int) =~= p2);

    let x2 = p1 + spec_json_string(command) + p2;
    let y2 = p3 + spec_json_members(env) + p4;
    assert(t =~= x2 + spec_json_string_list(args) + seq![']'] + y2);
    lemma_parse_list_of_emit(x2, args, y2);
    let k = x2.len() + spec_json_string_list(args).len() + 1int;
    assert(parse_string_list_from(t, j + p2.len() as int) == Some((args, k)));
    assert(t.subrange(k, k + p3.len() as int) =~= p3);

    let x3 = x2 + spec_json_string_list(args) + seq![']'] + p3;
    assert(t =~= x3 + spec_json_members(env) + seq!['}'] + seq!['}']);
    lemma_parse_members_of_emit(x3, env, seq!['}']);
    let m = x3.len() + spec_json_members(env).len() + 1int;
    assert(parse_members_from(t, k + p3.len() as int) == Some((env, m)));
    assert(t[m] == '}');
    assert(m == t.len() - 1);
}

/// Two strings with the same escaped form were the same string: nothing of
/// a request is blurred by serialization.
pub proof fn lemma_json_escape_injective(a: Seq<char>, b: Seq<char>)
    requires
        spec_json_escape(a) == spec_json_escape(b),
    ensures
        a == b,
{
    lemma_json_escape_lossless(a);
    lemma_json_escape_lossless(b);
}

/// A response line's text, without its terminator: one trailing `"\r\n"` or
/// `"\n"` is removed, nothing else.
pub open spec fn spec_strip_line(s: Seq<char>) -> Seq<char> {
    if s.len() >= 2 && s[s.len() - 2] == '\r' && s[s.len() - 1] == '\n' {
        s.subrange(0, s.len() - 2)
    } else if s.len() >= 1 && s[s.len() - 1] == '\n' {
        s.subrange(0, s.len() - 1)
    } else {
        s
    }
}

/// Removes one trailing line terminator (`\r\n` or `\n`), if present.
pub fn strip_line_terminator(line: &str) -> (r: String)
    ensures
        r@ == spec_strip_line(line@),
{
    let n = line.unicode_len();
    let keep: usize = if n >= 2 && line.get_char(n - 2) == '\r' && line.get_char(n - 1) == '\n' {
        n - 2
    } else if n >= 1 && line.get_char(n - 1) == '\n' {
        n - 1
    } else {
        n
    };
    let r = String::from_str(line.substring_char(0, keep));
    proof {
        assert(line@.subrange(0, n as int) =~= line@);
    }
    r
}

/// Reads the single response line. The line's text — its terminator is not
/// part of it — being the literal `OK` is success; any other text is the
/// server's own error message, passed through verbatim and never retried.
pub fn interpret_response(line: &str) -> (r: Result<(), CoreError>)
    ensures
        spec_strip_line(line@) == "OK"@ ==> r is Ok,
        spec_strip_line(line@) != "OK"@ ==> (r matches Err(CoreError::ServerReported(m)) && m@
            == spec_strip_line(line@)),
{
    proof {
        reveal_strlit("OK");
    }
    let stripped = strip_line_terminator(line);
    let n = stripped.as_str().unicode_len();
    let ok = if n == 2 {
        stripped.as_str().get_char(0) == 'O' && stripped.as_str().get_char(1) == 'K'
    } else {
        false
    };
    if ok {
        proof {
            assert(stripped@ =~= "OK"@);
        }
        Ok(())
    } else {
        proof {
            assert(stripped@ != "OK"@) by {
                if stripped@ == "OK"@ {
                    assert(stripped@.len() == 2);
                    assert(stripped@[0] == 'O' && stripped@[1] == 'K');
                }
            }
        }
        Err(CoreError::ServerReported(stripped))
    }
}

} // verus!
