//! The device's reply wire format, and the host's reading of it.
//!
//! The device answers every command with newline-terminated s-expressions of
//! exactly three shapes: `(ack)` or `(ack <id>)` on receipt, `(done <id>)` on
//! completion, and `(parse failed)` for a malformed line.  This module
//! formats those lines and parses them back; the round trip is proved.

use vstd::prelude::*;

use crate::gcode::{
    dec_value, digits_end, is_digit, lemma_digits_end_props, lit_at, scan_uint_clamped,
    skip_digits, take_lit,
};

verus! {

/// Identifier the network side assigns to each accepted command.
/// Monotonically increasing; `0` is reserved for "no id".
#[derive(Clone, Copy, Debug, PartialEq, Eq, Hash, Structural)]
pub struct CommandId(pub u32);

/// A receipt: the device took the command.  Carries no id for commands the
/// network side handles itself (stop).
#[derive(Clone, Copy, Debug, PartialEq, Eq, Structural)]
pub struct Ack(pub Option<CommandId>);

/// A completion: the command's physical effect has finished.
#[derive(Clone, Copy, Debug, PartialEq, Eq, Structural)]
pub struct Done(pub CommandId);

/// A reply the host understands.
#[derive(Clone, Copy, Debug, PartialEq, Eq, Structural)]
pub enum Response {
    Ack(Ack),
    Done(Done),
}

/// Message from the motion task back to the network task.
#[derive(Clone, Copy, Debug, PartialEq, Eq, Structural)]
pub enum MotionStatusMsg {
    CommandFinished(CommandId),
}

// ---------------------------------------------------------------------------
// Decimal rendering of ids.
// ---------------------------------------------------------------------------

/// The shortest decimal digit string for `n`, most significant first.
pub open spec fn dec_digits(n: nat) -> Seq<u8>
    decreases n,
{
    if n < 10 {
        seq![(48 + n) as u8]
    } else {
        dec_digits(n / 10) + seq![(48 + n % 10) as u8]
    }
}

/// Every byte of `dec_digits` is a digit.
pub proof fn lemma_dec_digits_are_digits(n: nat)
    ensures
        dec_digits(n).len() >= 1,
        forall|k: int| 0 <= k < dec_digits(n).len() ==> is_digit(#[trigger] dec_digits(n)[k]),
    decreases n,
{
    if n >= 10 {
        lemma_dec_digits_are_digits(n / 10);
        assert forall|k: int| 0 <= k < dec_digits(n).len() implies is_digit(
            #[trigger] dec_digits(n)[k],
        ) by {
            if k < dec_digits(n / 10).len() {
                assert(dec_digits(n)[k] == dec_digits(n / 10)[k]);
            }
        }
    }
}

/// Appending a byte after `to` does not change the value of the digits before it.
pub proof fn lemma_dec_value_push(a: Seq<u8>, x: u8, to: int)
    requires
        0 <= to <= a.len(),
    ensures
        dec_value(a.push(x), 0, to) == dec_value(a, 0, to),
    decreases to,
{
    if to > 0 {
        assert(a.push(x)[to - 1] == a[to - 1]);
        lemma_dec_value_push(a, x, to - 1);
    }
}

/// Reading the digits of `n` gives `n` back.
pub proof fn lemma_dec_digits_value(n: nat)
    ensures
        dec_value(dec_digits(n), 0, dec_digits(n).len() as int) == n,
    decreases n,
{
    if n < 10 {
        assert(dec_value(dec_digits(n), 0, 0) == 0);
        assert(dec_value(dec_digits(n), 0, 1) == dec_digits(n)[0] - 48);
        assert(dec_digits(n)[0] == (48 + n) as u8);
    } else {
        lemma_dec_digits_value(n / 10);
        let whole = dec_digits(n);
        let head = dec_digits(n / 10);
        let hl = head.len() as int;
        assert(whole.len() == hl + 1);
        assert(whole =~= head.push((48 + n % 10) as u8));
        lemma_dec_value_push(head, (48 + n % 10) as u8, hl);
        assert(dec_value(whole, 0, hl + 1) == dec_value(whole, 0, hl) * 10 + (whole[hl] - 48));
        assert(whole[hl] == (48 + n % 10) as u8);
        assert(n / 10 * 10 + n % 10 == n) by (nonlinear_arith);
    }
}

/// Append the decimal digits of `n` to `out`.
pub fn push_decimal(n: u32, out: &mut Vec<u8>)
    ensures
        final(out)@ == old(out)@ + dec_digits(n as nat),
    decreases n,
{
    if n < 10 {
        out.push(48 + n as u8);
        assert(out@ =~= old(out)@ + dec_digits(n as nat));
    } else {
        push_decimal(n / 10, out);
        out.push(48 + (n % 10) as u8);
        assert(out@ =~= old(out)@ + dec_digits(n as nat));
    }
}

// ---------------------------------------------------------------------------
// Reply lines.
// ---------------------------------------------------------------------------

/// `(ack)\n` or `(ack <id>)\n`.
pub open spec fn spec_ack_line(id: Option<u32>) -> Seq<u8> {
    match id {
        // "(ack)\n"
        Option::None => seq![40u8, 97u8, 99u8, 107u8, 41u8, 10u8],
        // "(ack " id ")\n"
        Option::Some(n) => seq![40u8, 97u8, 99u8, 107u8, 32u8] + dec_digits(n as nat) + seq![
            41u8,
            10u8,
        ],
    }
}

/// `(done <id>)\n`.
pub open spec fn spec_done_line(id: u32) -> Seq<u8> {
    seq![40u8, 100u8, 111u8, 110u8, 101u8, 32u8] + dec_digits(id as nat) + seq![41u8, 10u8]
}

/// `(parse failed)\n`.
pub open spec fn spec_parse_failed_line() -> Seq<u8> {
    seq![
        40u8,
        112u8,
        97u8,
        114u8,
        115u8,
        101u8,
        32u8,
        102u8,
        97u8,
        105u8,
        108u8,
        101u8,
        100u8,
        41u8,
        10u8,
    ]
}

/// Render the receipt line for a command id (or the bare `(ack)`).
pub fn format_ack(id: Option<u32>) -> (r: Vec<u8>)
    ensures
        r@ == spec_ack_line(id),
{
    let mut out: Vec<u8> = Vec::new();
    match id {
        None => {
            out.push(40);
            out.push(97);
            out.push(99);
            out.push(107);
            out.push(41);
            out.push(10);
            assert(out@ =~= spec_ack_line(Option::None));
        },
        Some(n) => {
            out.push(40);
            out.push(97);
            out.push(99);
            out.push(107);
            out.push(32);
            assert(out@ =~= seq![40u8, 97u8, 99u8, 107u8, 32u8]);
            push_decimal(n, &mut out);
            out.push(41);
            out.push(10);
            assert(out@ =~= spec_ack_line(Option::Some(n)));
        },
    }
    out
}

/// Render the completion line for a command id.
pub fn format_done(id: u32) -> (r: Vec<u8>)
    ensures
        r@ == spec_done_line(id),
{
    let mut out: Vec<u8> = Vec::new();
    out.push(40);
    out.push(100);
    out.push(111);
    out.push(110);
    out.push(101);
    out.push(32);
    assert(out@ =~= seq![40u8, 100u8, 111u8, 110u8, 101u8, 32u8]);
    push_decimal(id, &mut out);
    out.push(41);
    out.push(10);
    assert(out@ =~= spec_done_line(id));
    out
}

/// Render the parse-failure line.
pub fn format_parse_failed() -> (r: Vec<u8>)
    ensures
        r@ == spec_parse_failed_line(),
{
    let mut out: Vec<u8> = Vec::new();
    out.push(40);
    out.push(112);
    out.push(97);
    out.push(114);
    out.push(115);
    out.push(101);
    out.push(32);
    out.push(102);
    out.push(97);
    out.push(105);
    out.push(108);
    out.push(101);
    out.push(100);
    out.push(41);
    out.push(10);
    assert(out@ =~= spec_parse_failed_line());
    out
}

// ---------------------------------------------------------------------------
// Reading replies back (host side).
// ---------------------------------------------------------------------------

/// Bytes the host ignores at either end of a reply line.
pub open spec fn is_trimmable(b: u8) -> bool {
    b == 32u8 || b == 9u8 || b == 13u8 || b == 0u8
}

/// First index at or after `from` holding a byte that is kept.
pub open spec fn trim_start_idx(s: Seq<u8>, from: int) -> int
    decreases s.len() - from,
{
    if from < 0 || from >= s.len() || !is_trimmable(s[from]) {
        from
    } else {
        trim_start_idx(s, from + 1)
    }
}

/// Last index before `end` past the trailing ignored bytes.
pub open spec fn trim_end_idx(s: Seq<u8>, from: int, end: int) -> int
    decreases end - from,
{
    if end <= from || end > s.len() || !is_trimmable(s[end - 1]) {
        end
    } else {
        trim_end_idx(s, from, end - 1)
    }
}

/// What a reply line (without its newline) says, if anything.
pub open spec fn spec_response(s: Seq<u8>) -> Option<Response> {
    let a = trim_start_idx(s, 0);
    let b = trim_end_idx(s, a, s.len() as int);
    if b - a == 5 && lit_at(s, a, b, seq![40u8, 97u8, 99u8, 107u8, 41u8]) {
        // "(ack)"
        Option::Some(Response::Ack(Ack(Option::None)))
    } else if lit_at(s, a, b, seq![40u8, 97u8, 99u8, 107u8, 32u8]) && response_id_at(s, a + 5, b)
        is Some {
        // "(ack " id ")"
        Option::Some(
            Response::Ack(Ack(Option::Some(CommandId(response_id_at(s, a + 5, b)->0 as u32)))),
        )
    } else if lit_at(s, a, b, seq![40u8, 100u8, 111u8, 110u8, 101u8, 32u8]) && response_id_at(
        s,
        a + 6,
        b,
    ) is Some {
        // "(done " id ")"
        Option::Some(Response::Done(Done(CommandId(response_id_at(s, a + 6, b)->0 as u32))))
    } else {
        Option::None
    }
}

/// Digits filling `from..b-1`, a closing parenthesis at `b-1`, and a value
/// that fits a `u32`.
pub open spec fn response_id_at(s: Seq<u8>, from: int, b: int) -> Option<int> {
    let de = digits_end(s, from, b);
    if de > from && de == b - 1 && b - 1 < s.len() && s[b - 1] == 41 && dec_value(s, from, de)
        <= u32::MAX {
        Option::Some(dec_value(s, from, de))
    } else {
        Option::None
    }
}

/// Parse one reply line (without its newline), tolerating stray whitespace
/// and NUL bytes at either end.
pub fn parse_response(line: &[u8]) -> (r: Option<Response>)
    ensures
        r == spec_response(line@),
{
    let len = line.len();
    let mut a: usize = 0;
    while a < len && (line[a] == 32 || line[a] == 9 || line[a] == 13 || line[a] == 0)
        invariant
            a <= len == line@.len(),
            trim_start_idx(line@, 0) == trim_start_idx(line@, a as int),
        decreases len - a,
    {
        a = a + 1;
    }
    let mut b: usize = len;
    while b > a && (line[b - 1] == 32 || line[b - 1] == 9 || line[b - 1] == 13 || line[b - 1] == 0)
        invariant
            a <= b <= len == line@.len(),
            trim_end_idx(line@, a as int, len as int) == trim_end_idx(line@, a as int, b as int),
        decreases b,
    {
        b = b - 1;
    }
    let ack_bare: [u8; 5] = [40, 97, 99, 107, 41];
    let ack_sp: [u8; 5] = [40, 97, 99, 107, 32];
    let done_sp: [u8; 6] = [40, 100, 111, 110, 101, 32];
    proof {
        assert(ack_bare@ =~= seq![40u8, 97u8, 99u8, 107u8, 41u8]);
        assert(ack_sp@ =~= seq![40u8, 97u8, 99u8, 107u8, 32u8]);
        assert(done_sp@ =~= seq![40u8, 100u8, 111u8, 110u8, 101u8, 32u8]);
    }
    if b - a == 5 && take_lit(line, a, b, &ack_bare).is_some() {
        return Some(Response::Ack(Ack(None)));
    }
    if let Some(p) = take_lit(line, a, b, &ack_sp) {
        match scan_response_id(line, p, b) {
            Some(id) => {
                return Some(Response::Ack(Ack(Some(CommandId(id)))));
            },
            None => {
                return None;
            },
        }
    }
    if let Some(p) = take_lit(line, a, b, &done_sp) {
        match scan_response_id(line, p, b) {
            Some(id) => {
                return Some(Response::Done(Done(CommandId(id))));
            },
            None => {
                return None;
            },
        }
    }
    None
}

/// Scan the id-and-closing-parenthesis tail of a reply.
fn scan_response_id(line: &[u8], from: usize, b: usize) -> (r: Option<u32>)
    requires
        from <= b <= line@.len(),
    ensures
        match r {
            Option::Some(id) => response_id_at(line@, from as int, b as int) == Option::Some(
                id as int,
            ),
            Option::None => response_id_at(line@, from as int, b as int) is None,
        },
{
    let de = skip_digits(line, from, b);
    if de > from && b > 0 && de == b - 1 && line[b - 1] == 41 {
        proof {
            lemma_digits_end_props(line@, from as int, b as int);
            lemma_dec_value_nonneg_wire(line@, from as int, de as int);
        }
        let n = scan_uint_clamped(line, from, de);
        if n <= u32::MAX as u64 {
            Some(n as u32)
        } else {
            None
        }
    } else {
        None
    }
}

// ---------------------------------------------------------------------------
// Round trip: every line the device emits, the host reads back unchanged.
// ---------------------------------------------------------------------------

/// When `from..to` holds digits and `to` does not, the digit span ends at `to`.
pub proof fn lemma_digits_end_exact(s: Seq<u8>, from: int, to: int, end: int)
    requires
        0 <= from <= to <= end <= s.len(),
        forall|k: int| from <= k < to ==> is_digit(#[trigger] s[k]),
        to < end ==> !is_digit(s[to]),
    ensures
        digits_end(s, from, end) == to,
    decreases to - from,
{
    if from < to {
        assert(is_digit(s[from]));
        lemma_digits_end_exact(s, from + 1, to, end);
    }
}

/// The digits standing at an offset read as the same value they do alone.
pub proof fn lemma_dec_value_offset(s: Seq<u8>, d: Seq<u8>, off: int, k: int)
    requires
        0 <= k,
        forall|j: int| 0 <= j < k ==> s[off + j] == #[trigger] d[j],
    ensures
        dec_value(s, off, off + k) == dec_value(d, 0, k),
    decreases k,
{
    if k > 0 {
        assert(s[off + (k - 1)] == d[k - 1]);
        lemma_dec_value_offset(s, d, off, k - 1);
    }
}

/// The bare receipt `(ack)` reads back as an ack without an id.
pub proof fn lemma_ack_bare_round_trip()
    ensures
        spec_response(spec_ack_line(Option::None).drop_last()) == Option::Some(
            Response::Ack(Ack(Option::None)),
        ),
{
    let line = spec_ack_line(Option::None).drop_last();
    assert(line =~= seq![40u8, 97u8, 99u8, 107u8, 41u8]);
    assert(trim_start_idx(line, 0) == 0);
    assert(trim_end_idx(line, 0, 5) == 5);
    assert(line.subrange(0, 5) =~= seq![40u8, 97u8, 99u8, 107u8, 41u8]);
}

/// A receipt line with an id reads back as exactly that ack.
pub proof fn lemma_ack_round_trip(id: u32)
    ensures
        spec_response(spec_ack_line(Option::Some(id)).drop_last()) == Option::Some(
            Response::Ack(Ack(Option::Some(CommandId(id)))),
        ),
{
    let d = dec_digits(id as nat);
    let dl = d.len() as int;
    lemma_dec_digits_are_digits(id as nat);
    lemma_dec_digits_value(id as nat);
    let line = spec_ack_line(Option::Some(id)).drop_last();
    assert(line =~= seq![40u8, 97u8, 99u8, 107u8, 32u8] + d + seq![41u8]);
    assert(line.len() == 6 + dl);
    assert(line[0] == 40);
    assert(trim_start_idx(line, 0) == 0);
    assert(line[5 + dl] == 41);
    assert(trim_end_idx(line, 0, 6 + dl) == 6 + dl);
    let b = 6 + dl;
    // not the bare "(ack)": too long
    assert(b - 0 != 5);
    // the "(ack " literal stands at the head
    assert(line.subrange(0, 5) =~= seq![40u8, 97u8, 99u8, 107u8, 32u8]);
    // the id and its closing parenthesis follow
    assert(forall|k: int| 5 <= k < 5 + dl ==> is_digit(#[trigger] line[k]));
    lemma_digits_end_exact(line, 5, 5 + dl, b);
    lemma_dec_value_offset(line, d, 5, dl);
    assert(response_id_at(line, 5, b) == Option::Some(id as int));
}

/// A completion line reads back as exactly that completion.
pub proof fn lemma_done_round_trip(id: u32)
    ensures
        spec_response(spec_done_line(id).drop_last()) == Option::Some(
            Response::Done(Done(CommandId(id))),
        ),
{
    let d = dec_digits(id as nat);
    let dl = d.len() as int;
    lemma_dec_digits_are_digits(id as nat);
    lemma_dec_digits_value(id as nat);
    let line = spec_done_line(id).drop_last();
    assert(line =~= seq![40u8, 100u8, 111u8, 110u8, 101u8, 32u8] + d + seq![41u8]);
    assert(line.len() == 7 + dl);
    assert(line[0] == 40);
    assert(trim_start_idx(line, 0) == 0);
    assert(line[6 + dl] == 41);
    assert(trim_end_idx(line, 0, 7 + dl) == 7 + dl);
    let b = 7 + dl;
    assert(b - 0 != 5);
    // not an ack: the second byte differs
    assert(line[1] == 100);
    assert(!lit_at(line, 0, b, seq![40u8, 97u8, 99u8, 107u8, 41u8])) by {
        if lit_at(line, 0, b, seq![40u8, 97u8, 99u8, 107u8, 41u8]) {
            assert(line.subrange(0, 5)[1] == line[1]);
        }
    }
    assert(!lit_at(line, 0, b, seq![40u8, 97u8, 99u8, 107u8, 32u8])) by {
        if lit_at(line, 0, b, seq![40u8, 97u8, 99u8, 107u8, 32u8]) {
            assert(line.subrange(0, 5)[1] == line[1]);
        }
    }
    assert(line.subrange(0, 6) =~= seq![40u8, 100u8, 111u8, 110u8, 101u8, 32u8]);
    assert(forall|k: int| 6 <= k < 6 + dl ==> is_digit(#[trigger] line[k]));
    lemma_digits_end_exact(line, 6, 6 + dl, b);
    lemma_dec_value_offset(line, d, 6, dl);
    assert(response_id_at(line, 6, b) == Option::Some(id as int));
}

// ---------------------------------------------------------------------------
// Host-side program lines.
// ---------------------------------------------------------------------------

/// Whitespace stripped from a program line before it is examined.
pub open spec fn is_line_ws(b: u8) -> bool {
    b == 32u8 || b == 9u8 || b == 13u8
}

/// First index at or after `from` that is not line whitespace.
pub open spec fn line_ws_start(s: Seq<u8>, from: int) -> int
    decreases s.len() - from,
{
    if from < 0 || from >= s.len() || !is_line_ws(s[from]) {
        from
    } else {
        line_ws_start(s, from + 1)
    }
}

/// End index before `end` past trailing line whitespace.
pub open spec fn line_ws_end(s: Seq<u8>, from: int, end: int) -> int
    decreases end - from,
{
    if end <= from || end > s.len() || !is_line_ws(s[end - 1]) {
        end
    } else {
        line_ws_end(s, from, end - 1)
    }
}

/// Index of the last `;` in `from..end`, or `-1` when there is none.
pub open spec fn last_semicolon(s: Seq<u8>, from: int, end: int) -> int
    decreases end - from,
{
    if end <= from || end > s.len() {
        -1
    } else if s[end - 1] == 59u8 {
        end - 1
    } else {
        last_semicolon(s, from, end - 1)
    }
}

/// What a program line turns into before it is sent.
#[derive(Debug)]
pub enum PreparedLine {
    /// A whole-line comment in parentheses: not sent.
    Comment,
    /// A line starting `(` without the closing `)`: the program is rejected.
    MismatchedComment,
    /// A command line: the bytes to hand to the parser, newline included.
    CommandText(Vec<u8>),
}

/// Prepare one raw program line: strip surrounding whitespace, drop
/// whole-line parenthesised comments, cut anything after the last `;`,
/// and terminate with a newline.
pub fn prepare_command_line(line: &[u8]) -> (r: PreparedLine)
    ensures
        ({
            let a = line_ws_start(line@, 0);
            let b = line_ws_end(line@, a, line@.len() as int);
            if b > a && line@[a] == 40 {
                if line@[b - 1] == 41 {
                    r is Comment
                } else {
                    r is MismatchedComment
                }
            } else {
                {
                    let semi = last_semicolon(line@, a, b);
                    let c = if semi == -1 {
                        b
                    } else {
                        semi
                    };
                    r matches PreparedLine::CommandText(v) && v@ == line@.subrange(a, c) + seq![
                        10u8,
                    ]
                }
            }
        }),
{
    let len = line.len();
    let mut a: usize = 0;
    while a < len && (line[a] == 32 || line[a] == 9 || line[a] == 13)
        invariant
            a <= len == line@.len(),
            line_ws_start(line@, 0) == line_ws_start(line@, a as int),
        decreases len - a,
    {
        a = a + 1;
    }
    let mut b: usize = len;
    while b > a && (line[b - 1] == 32 || line[b - 1] == 9 || line[b - 1] == 13)
        invariant
            a <= b <= len == line@.len(),
            line_ws_end(line@, a as int, len as int) == line_ws_end(line@, a as int, b as int),
        decreases b - a,
    {
        b = b - 1;
    }
    if b > a && line[a] == 40 {
        if line[b - 1] == 41 {
            return PreparedLine::Comment;
        } else {
            return PreparedLine::MismatchedComment;
        }
    }
    let mut c: usize = b;
    let mut found = false;
    while !found && c > a
        invariant
            a <= c <= b <= len == line@.len(),
            !found ==> last_semicolon(line@, a as int, b as int) == last_semicolon(
                line@,
                a as int,
                c as int,
            ),
            found ==> c < b && last_semicolon(line@, a as int, b as int) == c,
        decreases c - a,
    {
        if line[c - 1] == 59 {
            c = c - 1;
            found = true;
        } else {
            c = c - 1;
        }
    }
    let ghost semi = last_semicolon(line@, a as int, b as int);
    proof {
        if !found {
            assert(semi == last_semicolon(line@, a as int, c as int));
            assert(semi == -1);
        }
    }
    let cut: usize = if found {
        c
    } else {
        b
    };
    let mut out: Vec<u8> = Vec::new();
    let mut k: usize = a;
    while k < cut
        invariant
            a <= k <= cut <= len == line@.len(),
            out@ == line@.subrange(a as int, k as int),
        decreases cut - k,
    {
        out.push(line[k]);
        proof {
            assert(out@ =~= line@.subrange(a as int, k + 1));
        }
        k = k + 1;
    }
    out.push(10);
    proof {
        assert(out@ =~= line@.subrange(a as int, cut as int) + seq![10u8]);
    }
    PreparedLine::CommandText(out)
}

/// `dec_value` of digit bytes is never negative (local convenience form).
proof fn lemma_dec_value_nonneg_wire(s: Seq<u8>, from: int, to: int)
    requires
        forall|k: int| from <= k < to ==> is_digit(#[trigger] s[k]),
    ensures
        dec_value(s, from, to) >= 0,
    decreases to - from,
{
    if from < to {
        lemma_dec_value_nonneg_wire(s, from, to - 1);
    }
}

} // verus!
