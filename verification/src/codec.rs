//! Codec of the two protocol payloads.
//!
//! The inbound certificate-creation response is a JSON object whose
//! members are strings: whitespace between tokens, members in any
//! order, unknown members ignored, and the string escapes `\"`, `\\`,
//! `\/`, `\b`, `\f`, `\n`, `\r`, `\t` (`\u` is not accepted).  The
//! outbound registration request is framed here byte by byte, so its
//! exact shape is part of the contract.

use vstd::prelude::*;
use vstd::string::StringSliceAdditionalSpecFns;
use crate::util::{bytes_eq, clone_bytes, push_bytes};

verus! {

// ---------------------------------------------------------------------
// String escaping for the outbound JSON frame.
// ---------------------------------------------------------------------

/// The lower-case hex digit of `n < 16`.
pub open spec fn hex_digit(n: u8) -> u8 {
    if n < 10 {
        (0x30 + n) as u8
    } else {
        (0x57 + n) as u8
    }
}

/// How one byte appears inside a JSON string: quote and backslash are
/// escaped, control bytes use their short escape or `\u00XX`, and every
/// other byte stands for itself.
pub open spec fn spec_escape_byte(b: u8) -> Seq<u8> {
    if b == 0x22 {
        seq![0x5cu8, 0x22u8]
    } else if b == 0x5c {
        seq![0x5cu8, 0x5cu8]
    } else if b == 0x08 {
        seq![0x5cu8, 0x62u8]
    } else if b == 0x09 {
        seq![0x5cu8, 0x74u8]
    } else if b == 0x0a {
        seq![0x5cu8, 0x6eu8]
    } else if b == 0x0c {
        seq![0x5cu8, 0x66u8]
    } else if b == 0x0d {
        seq![0x5cu8, 0x72u8]
    } else if b < 0x20 {
        seq![0x5cu8, 0x75u8, 0x30u8, 0x30u8, hex_digit(b / 16), hex_digit(b % 16)]
    } else {
        seq![b]
    }
}

/// A byte sequence escaped for use inside a JSON string.
pub open spec fn spec_escape(s: Seq<u8>) -> Seq<u8>
    decreases s.len(),
{
    if s.len() == 0 {
        Seq::empty()
    } else {
        spec_escape_byte(s[0]) + spec_escape(s.drop_first())
    }
}

proof fn lemma_escape_snoc(s: Seq<u8>, b: u8)
    ensures
        spec_escape(s.push(b)) == spec_escape(s) + spec_escape_byte(b),
    decreases s.len(),
{
    if s.len() == 0 {
        assert(s.push(b)[0] == b);
        assert(s.push(b).drop_first() =~= Seq::<u8>::empty());
        assert(spec_escape(s.push(b)) == spec_escape_byte(b) + spec_escape(Seq::<u8>::empty()));
        assert(spec_escape(s.push(b)) =~= spec_escape(s) + spec_escape_byte(b));
    } else {
        assert(s.push(b)[0] == s[0]);
        assert(s.push(b).drop_first() =~= s.drop_first().push(b));
        assert(spec_escape(s.push(b)) == spec_escape_byte(s[0]) + spec_escape(
            s.drop_first().push(b),
        ));
        lemma_escape_snoc(s.drop_first(), b);
        assert(spec_escape(s.push(b)) =~= spec_escape(s) + spec_escape_byte(b));
    }
}

/// Appends `s` to `out` in escaped form.
#[verifier::rlimit(60)]
fn push_escaped(out: &mut Vec<u8>, s: &Vec<u8>)
    ensures
        final(out)@ == old(out)@ + spec_escape(s@),
{
    let ghost out0 = out@;
    let mut i: usize = 0;
    while i < s.len()
        invariant
            0 <= i <= s@.len(),
            out@ == out0 + spec_escape(s@.take(i as int)),
        decreases s@.len() - i,
    {
        let b = s[i];
        proof {
            assert(s@.take(i + 1 as int) =~= s@.take(i as int).push(b));
            lemma_escape_snoc(s@.take(i as int), b);
        }
        if b == 0x22 {
            out.push(0x5c);
            out.push(0x22);
        } else if b == 0x5c {
            out.push(0x5c);
            out.push(0x5c);
        } else if b == 0x08 {
            out.push(0x5c);
            out.push(0x62);
        } else if b == 0x09 {
            out.push(0x5c);
            out.push(0x74);
        } else if b == 0x0a {
            out.push(0x5c);
            out.push(0x6e);
        } else if b == 0x0c {
            out.push(0x5c);
            out.push(0x66);
        } else if b == 0x0d {
            out.push(0x5c);
            out.push(0x72);
        } else if b < 0x20 {
            out.push(0x5c);
            out.push(0x75);
            out.push(0x30);
            out.push(0x30);
            let hi = b / 16;
            let lo = b % 16;
            out.push(if hi < 10 { 0x30 + hi } else { 0x57 + hi });
            out.push(if lo < 10 { 0x30 + lo } else { 0x57 + lo });
        } else {
            out.push(b);
        }
        i += 1;
    }
    proof {
        assert(s@.take(s@.len() as int) =~= s@);
    }
}

// ---------------------------------------------------------------------
// The outbound registration request.
// ---------------------------------------------------------------------

/// Template parameters of a registration request.
pub struct RegistrationParameters {
    pub serial_number: Vec<u8>,
    pub certificate_id: Vec<u8>,
}

/// The registration request: constructed, framed, published, never
/// persisted.
pub struct RegistrationRequest {
    pub ownership_token: Vec<u8>,
    pub parameters: RegistrationParameters,
}

/// The exact byte frame of a registration request.
pub open spec fn spec_registration_body(token: Seq<u8>, serial: Seq<u8>, cert_id: Seq<u8>) -> Seq<
    u8,
> {
    "{\"certificateOwnershipToken\":\"".spec_bytes() + spec_escape(token)
        + "\",\"parameters\":{\"SerialNumber\":\"".spec_bytes() + spec_escape(serial)
        + "\",\"AWS::IoT::Certificate::Id\":\"".spec_bytes() + spec_escape(cert_id)
        + "\"}}".spec_bytes()
}

/// Frames a registration request as JSON, byte for byte as
/// `spec_registration_body` states.
pub fn build_registration_body(req: &RegistrationRequest) -> (r: Vec<u8>)
    ensures
        r@ == spec_registration_body(
            req.ownership_token@,
            req.parameters.serial_number@,
            req.parameters.certificate_id@,
        ),
{
    let mut out: Vec<u8> = Vec::new();
    push_bytes(&mut out, "{\"certificateOwnershipToken\":\"".as_bytes());
    push_escaped(&mut out, &req.ownership_token);
    push_bytes(&mut out, "\",\"parameters\":{\"SerialNumber\":\"".as_bytes());
    push_escaped(&mut out, &req.parameters.serial_number);
    push_bytes(&mut out, "\",\"AWS::IoT::Certificate::Id\":\"".as_bytes());
    push_escaped(&mut out, &req.parameters.certificate_id);
    push_bytes(&mut out, "\"}}".as_bytes());
    proof {
        assert(out@ =~= spec_registration_body(
            req.ownership_token@,
            req.parameters.serial_number@,
            req.parameters.certificate_id@,
        ));
    }
    out
}

// ---------------------------------------------------------------------
// The inbound JSON object of string members, parsed by an automaton
// that consumes one byte at a time.
// ---------------------------------------------------------------------

/// Whitespace accepted between JSON tokens.
pub open spec fn is_ws(b: u8) -> bool {
    b == 0x20 || b == 0x09 || b == 0x0a || b == 0x0d
}

/// The byte a short escape stands for, if the escape is accepted.
pub open spec fn unescape(b: u8) -> Option<u8> {
    if b == 0x22 {
        Option::Some(0x22u8)
    } else if b == 0x5c {
        Option::Some(0x5cu8)
    } else if b == 0x2f {
        Option::Some(0x2fu8)
    } else if b == 0x62 {
        Option::Some(0x08u8)
    } else if b == 0x66 {
        Option::Some(0x0cu8)
    } else if b == 0x6e {
        Option::Some(0x0au8)
    } else if b == 0x72 {
        Option::Some(0x0du8)
    } else if b == 0x74 {
        Option::Some(0x09u8)
    } else {
        Option::None
    }
}

/// Where the automaton stands between two bytes.
#[derive(Clone, Copy, PartialEq, Eq, Structural)]
pub enum Mode {
    /// Before the opening brace.
    Start,
    /// After `{`: a first key or a closing brace may follow.
    WantKeyOrClose,
    /// Inside a key.
    InKey,
    /// After a backslash inside a key.
    KeyEscape,
    /// After a key: a colon must follow.
    WantColon,
    /// After a colon: an opening quote must follow.
    WantValue,
    /// Inside a value.
    InValue,
    /// After a backslash inside a value.
    ValueEscape,
    /// After a member: a comma or the closing brace may follow.
    WantCommaOrClose,
    /// After a comma: a key must follow.
    WantKey,
    /// After the closing brace: only whitespace may follow.
    Done,
    /// The input left the grammar.
    Failed,
}

/// The automaton's full state: mode, the key and value being read, and
/// the members read so far.
#[verifier::ext_equal]
pub struct ParseState {
    pub mode: Mode,
    pub key: Seq<u8>,
    pub val: Seq<u8>,
    pub pairs: Seq<(Seq<u8>, Seq<u8>)>,
}

/// The automaton before any input.
pub open spec fn init_state() -> ParseState {
    ParseState { mode: Mode::Start, key: Seq::empty(), val: Seq::empty(), pairs: Seq::empty() }
}

/// One byte of input.
pub open spec fn spec_step(st: ParseState, b: u8) -> ParseState {
    match st.mode {
        Mode::Start => if is_ws(b) {
            st
        } else if b == 0x7b {
            ParseState { mode: Mode::WantKeyOrClose, ..st }
        } else {
            ParseState { mode: Mode::Failed, ..st }
        },
        Mode::WantKeyOrClose => if is_ws(b) {
            st
        } else if b == 0x22 {
            ParseState { mode: Mode::InKey, key: Seq::empty(), ..st }
        } else if b == 0x7d {
            ParseState { mode: Mode::Done, ..st }
        } else {
            ParseState { mode: Mode::Failed, ..st }
        },
        Mode::InKey => if b == 0x22 {
            ParseState { mode: Mode::WantColon, ..st }
        } else if b == 0x5c {
            ParseState { mode: Mode::KeyEscape, ..st }
        } else if b < 0x20 {
            ParseState { mode: Mode::Failed, ..st }
        } else {
            ParseState { key: st.key.push(b), ..st }
        },
        Mode::KeyEscape => match unescape(b) {
            Option::Some(c) => ParseState { mode: Mode::InKey, key: st.key.push(c), ..st },
            Option::None => ParseState { mode: Mode::Failed, ..st },
        },
        Mode::WantColon => if is_ws(b) {
            st
        } else if b == 0x3a {
            ParseState { mode: Mode::WantValue, ..st }
        } else {
            ParseState { mode: Mode::Failed, ..st }
        },
        Mode::WantValue => if is_ws(b) {
            st
        } else if b == 0x22 {
            ParseState { mode: Mode::InValue, val: Seq::empty(), ..st }
        } else {
            ParseState { mode: Mode::Failed, ..st }
        },
        Mode::InValue => if b == 0x22 {
            ParseState {
                mode: Mode::WantCommaOrClose,
                key: Seq::empty(),
                val: Seq::empty(),
                pairs: st.pairs.push((st.key, st.val)),
            }
        } else if b == 0x5c {
            ParseState { mode: Mode::ValueEscape, ..st }
        } else if b < 0x20 {
            ParseState { mode: Mode::Failed, ..st }
        } else {
            ParseState { val: st.val.push(b), ..st }
        },
        Mode::ValueEscape => match unescape(b) {
            Option::Some(c) => ParseState { mode: Mode::InValue, val: st.val.push(c), ..st },
            Option::None => ParseState { mode: Mode::Failed, ..st },
        },
        Mode::WantCommaOrClose => if is_ws(b) {
            st
        } else if b == 0x2c {
            ParseState { mode: Mode::WantKey, ..st }
        } else if b == 0x7d {
            ParseState { mode: Mode::Done, ..st }
        } else {
            ParseState { mode: Mode::Failed, ..st }
        },
        Mode::WantKey => if is_ws(b) {
            st
        } else if b == 0x22 {
            ParseState { mode: Mode::InKey, key: Seq::empty(), ..st }
        } else {
            ParseState { mode: Mode::Failed, ..st }
        },
        Mode::Done => if is_ws(b) {
            st
        } else {
            ParseState { mode: Mode::Failed, ..st }
        },
        Mode::Failed => st,
    }
}

/// The automaton run over a whole input.
pub open spec fn spec_run(st: ParseState, s: Seq<u8>) -> ParseState
    decreases s.len(),
{
    if s.len() == 0 {
        st
    } else {
        spec_run(spec_step(st, s[0]), s.drop_first())
    }
}

pub proof fn lemma_run_snoc(st: ParseState, s: Seq<u8>, b: u8)
    ensures
        spec_run(st, s.push(b)) == spec_step(spec_run(st, s), b),
    decreases s.len(),
{
    if s.len() == 0 {
        assert(s.push(b)[0] == b);
        assert(s.push(b).drop_first() =~= Seq::<u8>::empty());
        assert(spec_run(st, s.push(b)) == spec_run(spec_step(st, b), Seq::<u8>::empty()));
    } else {
        assert(s.push(b)[0] == s[0]);
        assert(s.push(b).drop_first() =~= s.drop_first().push(b));
        assert(spec_run(st, s.push(b)) == spec_run(spec_step(st, s[0]), s.drop_first().push(b)));
        lemma_run_snoc(spec_step(st, s[0]), s.drop_first(), b);
    }
}

/// The members of the input, if the whole input is an object of string
/// members followed only by whitespace.
pub open spec fn spec_parse_members(s: Seq<u8>) -> Option<Seq<(Seq<u8>, Seq<u8>)>> {
    let fin = spec_run(init_state(), s);
    if fin.mode == Mode::Done {
        Option::Some(fin.pairs)
    } else {
        Option::None
    }
}

/// Exec counterpart of the automaton state.
struct Parser {
    mode: Mode,
    key: Vec<u8>,
    val: Vec<u8>,
    pairs: Vec<(Vec<u8>, Vec<u8>)>,
}

/// The members of an exec pair vector, as sequences.
pub open spec fn pairs_view(ps: Seq<(Vec<u8>, Vec<u8>)>) -> Seq<(Seq<u8>, Seq<u8>)> {
    ps.map_values(|q: (Vec<u8>, Vec<u8>)| (q.0@, q.1@))
}

impl Parser {
    spec fn view(&self) -> ParseState {
        ParseState { mode: self.mode, key: self.key@, val: self.val@, pairs: pairs_view(self.pairs@) }
    }

    fn step(&mut self, b: u8)
        ensures
            final(self).view() == spec_step(old(self).view(), b),
    {
        match self.mode {
            Mode::Start => if b == 0x20 || b == 0x09 || b == 0x0a || b == 0x0d {
            } else if b == 0x7b {
                self.mode = Mode::WantKeyOrClose;
            } else {
                self.mode = Mode::Failed;
            },
            Mode::WantKeyOrClose => if b == 0x20 || b == 0x09 || b == 0x0a || b == 0x0d {
            } else if b == 0x22 {
                self.mode = Mode::InKey;
                self.key = Vec::new();
            } else if b == 0x7d {
                self.mode = Mode::Done;
            } else {
                self.mode = Mode::Failed;
            },
            Mode::InKey => if b == 0x22 {
                self.mode = Mode::WantColon;
            } else if b == 0x5c {
                self.mode = Mode::KeyEscape;
            } else if b < 0x20 {
                self.mode = Mode::Failed;
            } else {
                self.key.push(b);
            },
            Mode::KeyEscape => {
                match self.unescape_byte(b) {
                    Option::Some(c) => {
                        self.mode = Mode::InKey;
                        self.key.push(c);
                    },
                    Option::None => {
                        self.mode = Mode::Failed;
                    },
                }
            },
            Mode::WantColon => if b == 0x20 || b == 0x09 || b == 0x0a || b == 0x0d {
            } else if b == 0x3a {
                self.mode = Mode::WantValue;
            } else {
                self.mode = Mode::Failed;
            },
            Mode::WantValue => if b == 0x20 || b == 0x09 || b == 0x0a || b == 0x0d {
            } else if b == 0x22 {
                self.mode = Mode::InValue;
                self.val = Vec::new();
            } else {
                self.mode = Mode::Failed;
            },
            Mode::InValue => if b == 0x22 {
                let mut k: Vec<u8> = Vec::new();
                let mut v: Vec<u8> = Vec::new();
                core::mem::swap(&mut k, &mut self.key);
                core::mem::swap(&mut v, &mut self.val);
                let ghost before = pairs_view(self.pairs@);
                self.pairs.push((k, v));
                self.mode = Mode::WantCommaOrClose;
                proof {
                    assert(pairs_view(self.pairs@) =~= before.push((old(self).key@, old(self).val@)));
                }
            } else if b == 0x5c {
                self.mode = Mode::ValueEscape;
            } else if b < 0x20 {
                self.mode = Mode::Failed;
            } else {
                self.val.push(b);
            },
            Mode::ValueEscape => {
                match self.unescape_byte(b) {
                    Option::Some(c) => {
                        self.mode = Mode::InValue;
                        self.val.push(c);
                    },
                    Option::None => {
                        self.mode = Mode::Failed;
                    },
                }
            },
            Mode::WantCommaOrClose => if b == 0x20 || b == 0x09 || b == 0x0a || b == 0x0d {
            } else if b == 0x2c {
                self.mode = Mode::WantKey;
            } else if b == 0x7d {
                self.mode = Mode::Done;
            } else {
                self.mode = Mode::Failed;
            },
            Mode::WantKey => if b == 0x20 || b == 0x09 || b == 0x0a || b == 0x0d {
            } else if b == 0x22 {
                self.mode = Mode::InKey;
                self.key = Vec::new();
            } else {
                self.mode = Mode::Failed;
            },
            Mode::Done => if b == 0x20 || b == 0x09 || b == 0x0a || b == 0x0d {
            } else {
                self.mode = Mode::Failed;
            },
            Mode::Failed => {},
        }
    }

    fn unescape_byte(&self, b: u8) -> (r: Option<u8>)
        ensures
            r == unescape(b),
    {
        if b == 0x22 {
            Option::Some(0x22)
        } else if b == 0x5c {
            Option::Some(0x5c)
        } else if b == 0x2f {
            Option::Some(0x2f)
        } else if b == 0x62 {
            Option::Some(0x08)
        } else if b == 0x66 {
            Option::Some(0x0c)
        } else if b == 0x6e {
            Option::Some(0x0a)
        } else if b == 0x72 {
            Option::Some(0x0d)
        } else if b == 0x74 {
            Option::Some(0x09)
        } else {
            Option::None
        }
    }
}

/// Runs the automaton over the whole payload.
fn parse_members(s: &Vec<u8>) -> (r: Option<Vec<(Vec<u8>, Vec<u8>)>>)
    ensures
        match (r, spec_parse_members(s@)) {
            (Option::Some(v), Option::Some(m)) => pairs_view(v@) == m,
            (Option::None, Option::None) => true,
            _ => false,
        },
{
    let mut p = Parser { mode: Mode::Start, key: Vec::new(), val: Vec::new(), pairs: Vec::new() };
    proof {
        assert(p.view() =~= init_state());
    }
    let mut i: usize = 0;
    while i < s.len()
        invariant
            0 <= i <= s@.len(),
            p.view() == spec_run(init_state(), s@.take(i as int)),
        decreases s@.len() - i,
    {
        proof {
            assert(s@.take(i + 1 as int) =~= s@.take(i as int).push(s@[i as int]));
            lemma_run_snoc(init_state(), s@.take(i as int), s@[i as int]);
        }
        p.step(s[i]);
        i += 1;
    }
    proof {
        assert(s@.take(s@.len() as int) =~= s@);
    }
    if p.mode == Mode::Done {
        Option::Some(p.pairs)
    } else {
        Option::None
    }
}

// ---------------------------------------------------------------------
// Field extraction.
// ---------------------------------------------------------------------

/// How many members carry the given key.
pub open spec fn key_count(pairs: Seq<(Seq<u8>, Seq<u8>)>, key: Seq<u8>) -> nat
    decreases pairs.len(),
{
    if pairs.len() == 0 {
        0
    } else {
        (if pairs[0].0 == key {
            1nat
        } else {
            0nat
        }) + key_count(pairs.drop_first(), key)
    }
}

/// The value of the first member with the given key (empty when absent).
pub open spec fn first_value(pairs: Seq<(Seq<u8>, Seq<u8>)>, key: Seq<u8>) -> Seq<u8>
    decreases pairs.len(),
{
    if pairs.len() == 0 {
        Seq::empty()
    } else if pairs[0].0 == key {
        pairs[0].1
    } else {
        first_value(pairs.drop_first(), key)
    }
}

/// The value of a required field: present exactly once, else nothing.
pub open spec fn field_value(pairs: Seq<(Seq<u8>, Seq<u8>)>, key: Seq<u8>) -> Option<Seq<u8>> {
    if key_count(pairs, key) == 1 {
        Option::Some(first_value(pairs, key))
    } else {
        Option::None
    }
}

proof fn lemma_field_snoc(pairs: Seq<(Seq<u8>, Seq<u8>)>, p: (Seq<u8>, Seq<u8>), key: Seq<u8>)
    ensures
        key_count(pairs.push(p), key) == key_count(pairs, key) + (if p.0 == key {
            1nat
        } else {
            0nat
        }),
        key_count(pairs, key) > 0 ==> first_value(pairs.push(p), key) == first_value(pairs, key),
        key_count(pairs, key) == 0 && p.0 == key ==> first_value(pairs.push(p), key) == p.1,
    decreases pairs.len(),
{
    if pairs.len() == 0 {
        assert(pairs.push(p)[0] == p);
        assert(pairs.push(p).drop_first() =~= Seq::<(Seq<u8>, Seq<u8>)>::empty());
        assert(key_count(pairs.push(p), key) == (if p.0 == key {
            1nat
        } else {
            0nat
        }) + key_count(Seq::<(Seq<u8>, Seq<u8>)>::empty(), key));
        assert(key_count(Seq::<(Seq<u8>, Seq<u8>)>::empty(), key) == 0);
        assert(key_count(pairs, key) == 0);
    } else {
        assert(pairs.push(p)[0] == pairs[0]);
        assert(pairs.push(p).drop_first() =~= pairs.drop_first().push(p));
        assert(key_count(pairs.push(p), key) == (if pairs[0].0 == key {
            1nat
        } else {
            0nat
        }) + key_count(pairs.drop_first().push(p), key));
        assert(first_value(pairs.push(p), key) == (if pairs[0].0 == key {
            pairs[0].1
        } else {
            first_value(pairs.drop_first().push(p), key)
        }));
        lemma_field_snoc(pairs.drop_first(), p, key);
    }
}

/// Looks a required field up among the parsed members.
fn extract_field(pairs: &Vec<(Vec<u8>, Vec<u8>)>, key: &str) -> (r: Option<Vec<u8>>)
    ensures
        match (r, field_value(pairs_view(pairs@), key.spec_bytes())) {
            (Option::Some(v), Option::Some(x)) => v@ == x,
            (Option::None, Option::None) => true,
            _ => false,
        },
{
    let kb = key.as_bytes();
    let ghost pv = pairs_view(pairs@);
    let mut found: Option<Vec<u8>> = Option::None;
    let mut count: usize = 0;
    let mut i: usize = 0;
    while i < pairs.len()
        invariant
            0 <= i <= pairs@.len(),
            count <= i,
            kb@ == key.spec_bytes(),
            pv == pairs_view(pairs@),
            count as nat == key_count(pv.take(i as int), kb@),
            count > 0 ==> (found matches Option::Some(v) && v@ == first_value(
                pv.take(i as int),
                kb@,
            )),
            count == 0 ==> found is None,
        decreases pairs@.len() - i,
    {
        proof {
            assert(pv[i as int] == (pairs@[i as int].0@, pairs@[i as int].1@));
            assert(pv.take(i + 1 as int) =~= pv.take(i as int).push(pv[i as int]));
            lemma_field_snoc(pv.take(i as int), pv[i as int], kb@);
        }
        let pair = &pairs[i];
        if bytes_eq(pair.0.as_slice(), kb) {
            count = count + 1;
            if count == 1 {
                found = Option::Some(clone_bytes(&pair.1));
            }
        }
        i += 1;
    }
    proof {
        assert(pv.take(pv.len() as int) =~= pv);
    }
    if count == 1 {
        found
    } else {
        Option::None
    }
}

// ---------------------------------------------------------------------
// The issued credential.
// ---------------------------------------------------------------------

/// The credential parsed from a certificate-creation response:
/// constructed on receipt, consumed at once, never retained in state.
pub struct IssuedCredential {
    pub certificate_id: Vec<u8>,
    pub ownership_token: Vec<u8>,
    pub certificate_pem: Vec<u8>,
    pub private_key: Vec<u8>,
}

/// Spec-level image of an issued credential.
pub struct CredentialFields {
    pub certificate_id: Seq<u8>,
    pub ownership_token: Seq<u8>,
    pub certificate_pem: Seq<u8>,
    pub private_key: Seq<u8>,
}

impl View for IssuedCredential {
    type V = CredentialFields;

    open spec fn view(&self) -> CredentialFields {
        CredentialFields {
            certificate_id: self.certificate_id@,
            ownership_token: self.ownership_token@,
            certificate_pem: self.certificate_pem@,
            private_key: self.private_key@,
        }
    }
}

/// The credential a payload encodes: the payload parses as an object of
/// string members and each of the four credential fields is present
/// exactly once; other members are ignored.
pub open spec fn spec_parse_credential(s: Seq<u8>) -> Option<CredentialFields> {
    match spec_parse_members(s) {
        Option::None => Option::None,
        Option::Some(pairs) => {
            let cid = field_value(pairs, "certificateId".spec_bytes());
            let tok = field_value(pairs, "certificateOwnershipToken".spec_bytes());
            let pem = field_value(pairs, "certificatePem".spec_bytes());
            let key = field_value(pairs, "privateKey".spec_bytes());
            if cid is Some && tok is Some && pem is Some && key is Some {
                Option::Some(
                    CredentialFields {
                        certificate_id: cid.unwrap(),
                        ownership_token: tok.unwrap(),
                        certificate_pem: pem.unwrap(),
                        private_key: key.unwrap(),
                    },
                )
            } else {
                Option::None
            }
        },
    }
}

/// Parses a certificate-creation response.  Returns the credential
/// exactly when `spec_parse_credential` accepts the payload.
pub fn parse_credential(payload: &Vec<u8>) -> (r: Option<IssuedCredential>)
    ensures
        match (r, spec_parse_credential(payload@)) {
            (Option::Some(c), Option::Some(f)) => c@ == f,
            (Option::None, Option::None) => true,
            _ => false,
        },
{
    let pairs = match parse_members(payload) {
        Option::None => {
            return Option::None;
        },
        Option::Some(p) => p,
    };
    let certificate_id = match extract_field(&pairs, "certificateId") {
        Option::None => {
            return Option::None;
        },
        Option::Some(v) => v,
    };
    let ownership_token = match extract_field(&pairs, "certificateOwnershipToken") {
        Option::None => {
            return Option::None;
        },
        Option::Some(v) => v,
    };
    let certificate_pem = match extract_field(&pairs, "certificatePem") {
        Option::None => {
            return Option::None;
        },
        Option::Some(v) => v,
    };
    let private_key = match extract_field(&pairs, "privateKey") {
        Option::None => {
            return Option::None;
        },
        Option::Some(v) => v,
    };
    Option::Some(IssuedCredential { certificate_id, ownership_token, certificate_pem, private_key })
}

} // verus!
