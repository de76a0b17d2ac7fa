//! The G-code command language: data model, grammar, and a verified parser.
//!
//! A command is one newline-terminated line.  Coordinates are unsigned
//! decimals with an optional fractional part (`X10.5`), read into the
//! fixed-point [`UCoord`] type, the fraction rounded to the nearest
//! 1/1024.
//! The accepted commands, over a fixed ordered label set such as `XZCF`:
//!
//! * `G0 <pos>` / `G1 <pos>` - rapid / linear move; at least one axis present
//! * `G4 S<secs>` / `G4 P<millis>` - dwell
//! * `G27 <pos?>` - park
//! * `G28` - home
//! * `M0` - stop, `M17` - enable steppers, `M18` - disable steppers
//!
//! The grammar is stated by `spec` functions over byte sequences; every
//! executable parser is proved to return exactly what the grammar says.

use vstd::prelude::*;

use crate::fixnum::{sat_u32, UNum};

verus! {

/// An unsigned machine coordinate, in fixed point.
pub type UCoord = UNum;

/// A position over the label set: one optional coordinate per axis label,
/// in label order.  `None` means "axis unchanged".
#[derive(Debug)]
pub struct UPos(pub Vec<Option<UCoord>>);

/// A parsed command.  Dwell durations are carried in milliseconds.
#[derive(Debug)]
pub enum Command {
    /// `G0`
    RapidMove(UPos),
    /// `G1`
    LinearMove(UPos),
    /// `G4`, in milliseconds
    Dwell(u64),
    /// `G27`
    Park(Option<UPos>),
    /// `G28`
    Home,
    /// `M0`
    Stop,
    /// `M17`
    EnableAllSteppers,
    /// `M18`
    DisableAllSteppers,
    /// Not parsed from the wire; issued internally for diagnostics.
    GetCurrentPosition,
}

/// Why a byte stream does not (yet) hold a command.
#[derive(Clone, Copy, Debug, PartialEq, Eq, Structural)]
pub enum Error {
    /// The input can never become a valid command line.
    ParseFailed,
    /// The input is a prefix that still needs more bytes (no newline yet).
    Incomplete,
}

/// Mathematical model of a position: the raw coordinate bits per axis.
pub type PosModel = Seq<Option<int>>;

/// Mathematical model of a command.
pub enum CommandModel {
    RapidMove(PosModel),
    LinearMove(PosModel),
    Dwell(int),
    Park(Option<PosModel>),
    Home,
    Stop,
    EnableAllSteppers,
    DisableAllSteppers,
    GetCurrentPosition,
}

impl View for UPos {
    type V = PosModel;

    open spec fn view(&self) -> PosModel {
        self.0@.map_values(
            |o: Option<UCoord>|
                match o {
                    Option::Some(u) => Option::Some(u.bits as int),
                    Option::None => Option::None,
                },
        )
    }
}

impl View for Command {
    type V = CommandModel;

    open spec fn view(&self) -> CommandModel {
        match self {
            Command::RapidMove(p) => CommandModel::RapidMove(p@),
            Command::LinearMove(p) => CommandModel::LinearMove(p@),
            Command::Dwell(ms) => CommandModel::Dwell(*ms as int),
            Command::Park(op) => CommandModel::Park(
                match op {
                    Option::Some(p) => Option::Some(p@),
                    Option::None => Option::None,
                },
            ),
            Command::Home => CommandModel::Home,
            Command::Stop => CommandModel::Stop,
            Command::EnableAllSteppers => CommandModel::EnableAllSteppers,
            Command::DisableAllSteppers => CommandModel::DisableAllSteppers,
            Command::GetCurrentPosition => CommandModel::GetCurrentPosition,
        }
    }
}

impl UPos {
    /// A position from its per-axis optional coordinates.
    pub fn from_coords(coords: Vec<Option<UCoord>>) -> (r: UPos)
        ensures
            r.0 == coords,
    {
        UPos(coords)
    }

    /// Whether any axis is present.
    pub fn any_present(&self) -> (r: bool)
        ensures
            r == pos_any_present(self@),
    {
        let mut k: usize = 0;
        while k < self.0.len()
            invariant
                k <= self.0.len(),
                self@.len() == self.0.len(),
                forall|j: int| 0 <= j < k ==> self@[j] is None,
            decreases self.0.len() - k,
        {
            if self.0[k].is_some() {
                assert(self@[k as int] is Some);
                return true;
            }
            k = k + 1;
        }
        false
    }
}

/// Whether a position model names at least one axis.
pub open spec fn pos_any_present(p: PosModel) -> bool {
    exists|i: int| 0 <= i < p.len() && p[i] is Some
}

impl PartialEq for UPos {
    fn eq(&self, other: &UPos) -> (r: bool) {
        if self.0.len() != other.0.len() {
            return false;
        }
        let mut k: usize = 0;
        while k < self.0.len()
            invariant
                k <= self.0.len(),
                self.0.len() == other.0.len(),
                forall|j: int| 0 <= j < k ==> self@[j] == other@[j],
            decreases self.0.len() - k,
        {
            let same = match (&self.0[k], &other.0[k]) {
                (Option::Some(a), Option::Some(b)) => a.bits == b.bits,
                (Option::None, Option::None) => true,
                _ => false,
            };
            if !same {
                assert(self@[k as int] != other@[k as int]);
                return false;
            }
            assert(self@[k as int] == other@[k as int]);
            k = k + 1;
        }
        proof {
            assert(self@ =~= other@);
        }
        true
    }
}

impl vstd::std_specs::cmp::PartialEqSpecImpl for UPos {
    open spec fn obeys_eq_spec() -> bool {
        true
    }

    open spec fn eq_spec(&self, other: &UPos) -> bool {
        self@ == other@
    }
}

impl PartialEq for Command {
    fn eq(&self, other: &Command) -> (r: bool) {
        match (self, other) {
            (Command::RapidMove(a), Command::RapidMove(b)) => a == b,
            (Command::LinearMove(a), Command::LinearMove(b)) => a == b,
            (Command::Dwell(a), Command::Dwell(b)) => a == b,
            (Command::Park(Option::Some(a)), Command::Park(Option::Some(b))) => a == b,
            (Command::Park(Option::None), Command::Park(Option::None)) => true,
            (Command::Home, Command::Home) => true,
            (Command::Stop, Command::Stop) => true,
            (Command::EnableAllSteppers, Command::EnableAllSteppers) => true,
            (Command::DisableAllSteppers, Command::DisableAllSteppers) => true,
            (Command::GetCurrentPosition, Command::GetCurrentPosition) => true,
            _ => false,
        }
    }
}

impl vstd::std_specs::cmp::PartialEqSpecImpl for Command {
    open spec fn obeys_eq_spec() -> bool {
        true
    }

    open spec fn eq_spec(&self, other: &Command) -> bool {
        self@ == other@
    }
}

// ---------------------------------------------------------------------------
// The grammar, as spec functions over byte sequences.
// ---------------------------------------------------------------------------

/// Horizontal whitespace: space or tab.
pub open spec fn is_space(b: u8) -> bool {
    b == 32u8 || b == 9u8
}

/// An ASCII decimal digit.
pub open spec fn is_digit(b: u8) -> bool {
    48u8 <= b <= 57u8
}

/// First index in `from..end` that is not horizontal whitespace (or `end`).
pub open spec fn spaces_end(s: Seq<u8>, from: int, end: int) -> int
    decreases end - from,
{
    if from >= end || !is_space(s[from]) {
        from
    } else {
        spaces_end(s, from + 1, end)
    }
}

/// First index in `from..end` that is not a digit (or `end`).
pub open spec fn digits_end(s: Seq<u8>, from: int, end: int) -> int
    decreases end - from,
{
    if from >= end || !is_digit(s[from]) {
        from
    } else {
        digits_end(s, from + 1, end)
    }
}

/// Value of the decimal digits `s[from..to]`, most significant first.
pub open spec fn dec_value(s: Seq<u8>, from: int, to: int) -> int
    decreases to - from,
{
    if to <= from {
        0
    } else {
        dec_value(s, from, to - 1) * 10 + (s[to - 1] - 48)
    }
}

/// Twice the fixed-point bits of the fraction `0.s[from..to]`, rounded
/// down: the floor of `2048 * 0.d1 d2 ... dk`, computed digit by digit.
pub open spec fn frac_value_2x(s: Seq<u8>, from: int, to: int) -> int
    decreases to - from,
{
    if from >= to {
        0
    } else {
        (2048 * (s[from] - 48) + frac_value_2x(s, from + 1, to)) / 10
    }
}

/// Fixed-point bits of the fraction `0.s[from..to]`, rounded to the
/// nearest 1/1024 (an exact half rounds up): `floor(v + 1/2)` equals
/// `(floor(2v) + 1) / 2` for the scaled value `v`.  A full carry (a
/// fraction at or above `1023.5/1024`) yields `1024` and spills into the
/// whole part.
pub open spec fn frac_value(s: Seq<u8>, from: int, to: int) -> int {
    (frac_value_2x(s, from, to) + 1) / 2
}

pub proof fn lemma_spaces_end_props(s: Seq<u8>, from: int, end: int)
    requires
        0 <= from <= end <= s.len(),
    ensures
        from <= spaces_end(s, from, end) <= end,
        forall|k: int| from <= k < spaces_end(s, from, end) ==> is_space(s[k]),
        spaces_end(s, from, end) < end ==> !is_space(s[spaces_end(s, from, end)]),
    decreases end - from,
{
    if from < end && is_space(s[from]) {
        lemma_spaces_end_props(s, from + 1, end);
    }
}

pub proof fn lemma_digits_end_props(s: Seq<u8>, from: int, end: int)
    requires
        0 <= from <= end <= s.len(),
    ensures
        from <= digits_end(s, from, end) <= end,
        forall|k: int| from <= k < digits_end(s, from, end) ==> is_digit(s[k]),
        digits_end(s, from, end) < end ==> !is_digit(s[digits_end(s, from, end)]),
    decreases end - from,
{
    if from < end && is_digit(s[from]) {
        lemma_digits_end_props(s, from + 1, end);
    }
}

/// The doubled fractional bits stay below two whole units, so the
/// rounded bits stay at or below one.
pub proof fn lemma_frac_value_bound(s: Seq<u8>, from: int, to: int)
    requires
        forall|k: int| from <= k < to ==> 0 <= #[trigger] (s[k] - 48) <= 9,
    ensures
        0 <= frac_value_2x(s, from, to) < 2048,
        0 <= frac_value(s, from, to) <= 1024,
    decreases to - from,
{
    if from < to {
        lemma_frac_value_bound(s, from + 1, to);
    }
}

/// The digit string value is never negative.
pub proof fn lemma_dec_value_nonneg(s: Seq<u8>, from: int, to: int)
    requires
        forall|k: int| from <= k < to ==> 0 <= #[trigger] (s[k] - 48) <= 9,
    ensures
        dec_value(s, from, to) >= 0,
    decreases to - from,
{
    if from < to {
        lemma_dec_value_nonneg(s, from, to - 1);
    }
}

/// Whether the literal `lit` stands at `from`, wholly before `end`.
pub open spec fn lit_at(s: Seq<u8>, from: int, end: int, lit: Seq<u8>) -> bool {
    from + lit.len() <= end && s.subrange(from, from + lit.len()) == lit
}

/// An unsigned fixed-point coordinate: `digits+ ('.' digits+)?`.
/// Yields the end position and the coordinate's raw bits, clipped to `u32`.
pub open spec fn spec_ucoord(s: Seq<u8>, from: int, end: int) -> Option<(int, int)> {
    if from < end && is_digit(s[from]) {
        let ie = digits_end(s, from, end);
        let whole = dec_value(s, from, ie);
        if ie + 1 < end && s[ie] == 46 && is_digit(s[ie + 1]) {
            let fe = digits_end(s, ie + 1, end);
            Option::Some((fe, sat_u32(whole * 1024 + frac_value(s, ie + 1, fe))))
        } else {
            Option::Some((ie, sat_u32(whole * 1024)))
        }
    } else {
        Option::None
    }
}

/// One optional labelled coordinate: `ws+ <label> <ucoord>`, all or nothing.
pub open spec fn spec_axis(label: u8, s: Seq<u8>, from: int, end: int) -> Option<(int, int)> {
    let w = spaces_end(s, from, end);
    if w > from && w < end && s[w] == label {
        spec_ucoord(s, w + 1, end)
    } else {
        Option::None
    }
}

/// The coordinates for the labels `labels[k..]`, starting at `from`.
/// Always succeeds; an axis that does not match is absent and consumes nothing.
pub open spec fn spec_upos_from(labels: Seq<u8>, k: int, s: Seq<u8>, from: int, end: int) -> (
    int,
    PosModel,
)
    decreases labels.len() - k,
{
    if k >= labels.len() {
        (from, Seq::empty())
    } else {
        match spec_axis(labels[k], s, from, end) {
            Option::Some((p, v)) => {
                let rest = spec_upos_from(labels, k + 1, s, p, end);
                (rest.0, seq![Option::Some(v)] + rest.1)
            },
            Option::None => {
                let rest = spec_upos_from(labels, k + 1, s, from, end);
                (rest.0, seq![Option::<int>::None] + rest.1)
            },
        }
    }
}

/// A dwell argument: `ws+ ('S' secs | 'P' millis)`, digits only.
/// Yields the end position and the duration in milliseconds, clipped to `u64`.
pub open spec fn spec_dwell_arg(s: Seq<u8>, from: int, end: int) -> Option<(int, int)> {
    let w = spaces_end(s, from, end);
    if w > from && w + 1 < end && (s[w] == 83 || s[w] == 80) && is_digit(s[w + 1]) {
        let de = digits_end(s, w + 1, end);
        let n = dec_value(s, w + 1, de);
        let millis = if s[w] == 83 {
            n * 1000
        } else {
            n
        };
        Option::Some((de, if millis > u64::MAX { u64::MAX as int } else { millis }))
    } else {
        Option::None
    }
}

/// A whole command over `s[from..end]`: which literal leads the line and,
/// for the literals that take one, its argument.  Yields the end position
/// of the command and its model.  The command literals are prefix-free, so
/// trying them one after the other, as written here, never backtracks into
/// a different alternative.
pub open spec fn spec_command(labels: Seq<u8>, s: Seq<u8>, from: int, end: int) -> Option<
    (int, CommandModel),
> {
    if lit_at(s, from, end, seq![71u8, 48u8]) {  // "G0"
        let (p, c) = spec_upos_from(labels, 0, s, from + 2, end);
        if pos_any_present(c) {
            Option::Some((p, CommandModel::RapidMove(c)))
        } else {
            Option::None
        }
    } else if lit_at(s, from, end, seq![71u8, 49u8]) {  // "G1"
        let (p, c) = spec_upos_from(labels, 0, s, from + 2, end);
        if pos_any_present(c) {
            Option::Some((p, CommandModel::LinearMove(c)))
        } else {
            Option::None
        }
    } else if lit_at(s, from, end, seq![71u8, 52u8]) {  // "G4"
        match spec_dwell_arg(s, from + 2, end) {
            Option::Some((p, ms)) => Option::Some((p, CommandModel::Dwell(ms))),
            Option::None => Option::None,
        }
    } else if lit_at(s, from, end, seq![77u8, 48u8]) {  // "M0"
        Option::Some((from + 2, CommandModel::Stop))
    } else if lit_at(s, from, end, seq![77u8, 49u8, 55u8]) {  // "M17"
        Option::Some((from + 3, CommandModel::EnableAllSteppers))
    } else if lit_at(s, from, end, seq![77u8, 49u8, 56u8]) {  // "M18"
        Option::Some((from + 3, CommandModel::DisableAllSteppers))
    } else if lit_at(s, from, end, seq![71u8, 50u8, 56u8]) {  // "G28"
        Option::Some((from + 3, CommandModel::Home))
    } else if lit_at(s, from, end, seq![71u8, 50u8, 55u8]) {  // "G27"
        let (p, c) = spec_upos_from(labels, 0, s, from + 3, end);
        if pos_any_present(c) {
            Option::Some((p, CommandModel::Park(Option::Some(c))))
        } else {
            Option::Some((p, CommandModel::Park(Option::None)))
        }
    } else {
        Option::None
    }
}

/// Index of the first newline in `s`, or `s.len()` when there is none.
pub open spec fn newline_at(s: Seq<u8>) -> int {
    newline_from(s, 0)
}

/// Index of the first newline at or after `from`, or `s.len()`.
pub open spec fn newline_from(s: Seq<u8>, from: int) -> int
    decreases s.len() - from,
{
    if from >= s.len() || s[from] == 10u8 {
        from
    } else {
        newline_from(s, from + 1)
    }
}

pub proof fn lemma_newline_from_props(s: Seq<u8>, from: int)
    requires
        0 <= from <= s.len(),
    ensures
        from <= newline_from(s, from) <= s.len(),
        forall|k: int| from <= k < newline_from(s, from) ==> s[k] != 10u8,
        newline_from(s, from) < s.len() ==> s[newline_from(s, from)] == 10u8,
    decreases s.len() - from,
{
    if from < s.len() && s[from] != 10u8 {
        lemma_newline_from_props(s, from + 1);
    }
}

// ---------------------------------------------------------------------------
// Executable scanners, each proved against the grammar above.
// ---------------------------------------------------------------------------

/// Skip horizontal whitespace starting at `from`.
fn skip_spaces(i: &[u8], from: usize, end: usize) -> (r: usize)
    requires
        from <= end <= i@.len(),
    ensures
        r == spaces_end(i@, from as int, end as int),
        from <= r <= end,
{
    let mut p: usize = from;
    while p < end && (i[p] == 32 || i[p] == 9)
        invariant
            from <= p <= end <= i@.len(),
            spaces_end(i@, from as int, end as int) == spaces_end(i@, p as int, end as int),
        decreases end - p,
    {
        p = p + 1;
    }
    p
}

/// Skip decimal digits starting at `from`.
pub(crate) fn skip_digits(i: &[u8], from: usize, end: usize) -> (r: usize)
    requires
        from <= end <= i@.len(),
    ensures
        r == digits_end(i@, from as int, end as int),
        from <= r <= end,
{
    let mut p: usize = from;
    while p < end && 48 <= i[p] && i[p] <= 57
        invariant
            from <= p <= end <= i@.len(),
            digits_end(i@, from as int, end as int) == digits_end(i@, p as int, end as int),
        decreases end - p,
    {
        p = p + 1;
    }
    p
}

/// Read the digits `i[from..to]` as an integer, clipped to `u64::MAX`.
pub(crate) fn scan_uint_clamped(i: &[u8], from: usize, to: usize) -> (r: u64)
    requires
        from <= to <= i@.len(),
        forall|k: int| from <= k < to ==> is_digit(i@[k]),
    ensures
        r == if dec_value(i@, from as int, to as int) > u64::MAX {
            u64::MAX as int
        } else {
            dec_value(i@, from as int, to as int)
        },
{
    let mut v: u64 = 0;
    let mut p: usize = from;
    proof {
        lemma_dec_value_nonneg(i@, from as int, from as int);
    }
    while p < to
        invariant
            from <= p <= to <= i@.len(),
            forall|k: int| from <= k < to ==> is_digit(i@[k]),
            dec_value(i@, from as int, p as int) >= 0,
            v == if dec_value(i@, from as int, p as int) > u64::MAX {
                u64::MAX as int
            } else {
                dec_value(i@, from as int, p as int)
            },
        decreases to - p,
    {
        let d: u64 = (i[p] - 48) as u64;
        let ghost old_dec = dec_value(i@, from as int, p as int);
        let ghost new_dec = dec_value(i@, from as int, p as int + 1);
        proof {
            assert(new_dec == old_dec * 10 + (i@[p as int] - 48));
            lemma_dec_value_nonneg(i@, from as int, p as int + 1);
            assert(old_dec * 10 >= old_dec) by (nonlinear_arith)
                requires
                    old_dec >= 0,
            ;
        }
        if v > (u64::MAX - d) / 10 {
            proof {
                // the true value has outgrown u64: once clipped, it stays clipped
                assert(v * 10 + d > u64::MAX) by (nonlinear_arith)
                    requires
                        v > (u64::MAX - d) / 10,
                        0 <= d <= 9,
                        v >= 0,
                ;
                if old_dec <= u64::MAX {
                    assert(old_dec * 10 + (i@[p as int] - 48) >= v * 10 + d) by (nonlinear_arith)
                        requires
                            old_dec >= v,
                            i@[p as int] - 48 == d,
                    ;
                } else {
                    assert(old_dec * 10 + (i@[p as int] - 48) > u64::MAX) by (nonlinear_arith)
                        requires
                            old_dec > u64::MAX,
                            i@[p as int] - 48 >= 0,
                    ;
                }
            }
            v = u64::MAX;
        } else {
            proof {
                assert(v * 10 + d <= u64::MAX) by (nonlinear_arith)
                    requires
                        v <= (u64::MAX - d) / 10,
                        0 <= d <= 9,
                        v >= 0,
                ;
                assert(old_dec <= u64::MAX);
            }
            v = v * 10 + d;
        }
        p = p + 1;
    }
    v
}

/// Fixed-point bits of the fraction whose digits are `i[from..to]`,
/// rounded to the nearest 1/1024.
fn scan_frac(i: &[u8], from: usize, to: usize) -> (r: u32)
    requires
        from <= to <= i@.len(),
        forall|k: int| from <= k < to ==> is_digit(i@[k]),
    ensures
        r == frac_value(i@, from as int, to as int),
        r <= 1024,
{
    let mut r2: u32 = 0;
    let mut p: usize = to;
    proof {
        lemma_frac_value_bound(i@, from as int, to as int);
    }
    while p > from
        invariant
            from <= p <= to <= i@.len(),
            forall|k: int| from <= k < to ==> is_digit(i@[k]),
            r2 == frac_value_2x(i@, p as int, to as int),
            r2 < 2048,
        decreases p,
    {
        proof {
            lemma_frac_value_bound(i@, p as int - 1, to as int);
        }
        r2 = (2048 * ((i[p - 1] - 48) as u32) + r2) / 10;
        p = p - 1;
    }
    (r2 + 1) / 2
}

/// Whether the literal `lit` stands at `from`; consumes it when it does.
pub(crate) fn take_lit(i: &[u8], from: usize, end: usize, lit: &[u8]) -> (r: Option<usize>)
    requires
        from <= end <= i@.len(),
    ensures
        match r {
            Option::Some(p) => lit_at(i@, from as int, end as int, lit@) && p == from + lit@.len(),
            Option::None => !lit_at(i@, from as int, end as int, lit@),
        },
{
    if end - from < lit.len() {
        proof {
            if lit_at(i@, from as int, end as int, lit@) {
                assert(from + lit@.len() <= end);
            }
        }
        return Option::None;
    }
    let mut k: usize = 0;
    while k < lit.len()
        invariant
            k <= lit@.len(),
            from + lit@.len() <= end <= i@.len(),
            forall|j: int| 0 <= j < k ==> i@[from + j] == lit@[j],
        decreases lit@.len() - k,
    {
        if i[from + k] != lit[k] {
            proof {
                let sub = i@.subrange(from as int, from + lit@.len());
                assert(sub[k as int] == i@[from + k]);
                assert(sub != lit@);
            }
            return Option::None;
        }
        k = k + 1;
    }
    proof {
        assert(i@.subrange(from as int, from + lit@.len()) =~= lit@);
    }
    Option::Some(from + lit.len())
}

/// Parse an unsigned fixed-point coordinate at `from`.
pub fn ucoord(i: &[u8], from: usize, end: usize) -> (r: Option<(usize, UCoord)>)
    requires
        from <= end <= i@.len(),
    ensures
        match r {
            Option::Some((p, u)) => {
                &&& spec_ucoord(i@, from as int, end as int) == Option::Some((p as int, u.bits as int))
                &&& from < p <= end
            },
            Option::None => spec_ucoord(i@, from as int, end as int) is None,
        },
{
    if from >= end || i[from] < 48 || i[from] > 57 {
        return None;
    }
    let ie = skip_digits(i, from, end);
    proof {
        lemma_digits_end_props(i@, from as int, end as int);
        assert(ie > from);
    }
    let whole: u64 = scan_uint_clamped(i, from, ie);
    let ghost dec = dec_value(i@, from as int, ie as int);
    proof {
        lemma_dec_value_nonneg(i@, from as int, ie as int);
    }
    let has_frac = ie < end && i[ie] == 46 && ie + 1 < end && 48 <= i[ie + 1] && i[ie + 1] <= 57;
    let (p, fr): (usize, u32) = if has_frac {
        let fe = skip_digits(i, ie + 1, end);
        proof {
            lemma_digits_end_props(i@, ie + 1, end as int);
        }
        let f = scan_frac(i, ie + 1, fe);
        (fe, f)
    } else {
        (ie, 0)
    };
    let ghost frspec = if has_frac {
        frac_value(i@, ie + 1, digits_end(i@, ie + 1, end as int))
    } else {
        0
    };
    let t: u128 = (whole as u128) * 1024 + (fr as u128);
    let bits: u32 = if t > u32::MAX as u128 {
        u32::MAX
    } else {
        t as u32
    };
    proof {
        if dec > u64::MAX {
            assert(whole == u64::MAX);
            assert(dec * 1024 >= dec) by (nonlinear_arith)
                requires
                    dec >= 0,
            ;
            assert(sat_u32(dec * 1024 + frspec) == u32::MAX);
            assert(t > u32::MAX as u128);
        } else {
            assert(whole == dec);
            assert(t == dec * 1024 + frspec);
            assert(bits == sat_u32(dec * 1024 + frspec));
        }
    }
    Some((p, UNum { bits }))
}

/// Parse `label` immediately followed by a coordinate, as one unit.
pub fn labeled_ucoord(label: u8, i: &[u8], from: usize, end: usize) -> (r: Option<(usize, UCoord)>)
    requires
        from <= end <= i@.len(),
    ensures
        match r {
            Option::Some((p, u)) => {
                &&& from < end && i@[from as int] == label
                &&& spec_ucoord(i@, from + 1, end as int) == Option::Some((p as int, u.bits as int))
                &&& from < p <= end
            },
            Option::None => !(from < end && i@[from as int] == label) || spec_ucoord(
                i@,
                from + 1,
                end as int,
            ) is None,
        },
{
    if from < end && i[from] == label {
        ucoord(i, from + 1, end)
    } else {
        None
    }
}

/// Parse one optional coordinate per label, in label order.
pub fn upos(coord_labels: &[u8], i: &[u8], from: usize, end: usize) -> (r: (usize, UPos))
    requires
        from <= end <= i@.len(),
    ensures
        r.0 == spec_upos_from(coord_labels@, 0, i@, from as int, end as int).0,
        r.1@ == spec_upos_from(coord_labels@, 0, i@, from as int, end as int).1,
        from <= r.0 <= end,
        r.1.0.len() == coord_labels@.len(),
        r.1@.len() == coord_labels@.len(),
{
    let ghost full = spec_upos_from(coord_labels@, 0, i@, from as int, end as int);
    let mut coords: Vec<Option<UCoord>> = Vec::new();
    let mut p: usize = from;
    let mut k: usize = 0;
    proof {
        assert(coords@.map_values(
            |o: Option<UCoord>|
                match o {
                    Option::Some(u) => Option::Some(u.bits as int),
                    Option::None => Option::None,
                },
        ) + full.1 =~= full.1);
    }
    while k < coord_labels.len()
        invariant
            from <= p <= end <= i@.len(),
            k <= coord_labels@.len(),
            coords@.len() == k,
            full == spec_upos_from(coord_labels@, 0, i@, from as int, end as int),
            full.0 == spec_upos_from(coord_labels@, k as int, i@, p as int, end as int).0,
            full.1 == coords@.map_values(
                |o: Option<UCoord>|
                    match o {
                        Option::Some(u) => Option::Some(u.bits as int),
                        Option::None => Option::None,
                    },
            ) + spec_upos_from(coord_labels@, k as int, i@, p as int, end as int).1,
        decreases coord_labels@.len() - k,
    {
        let ghost before = spec_upos_from(coord_labels@, k as int, i@, p as int, end as int);
        let w = skip_spaces(i, p, end);
        let got: Option<(usize, UCoord)> = if w > p && w < end && i[w] == coord_labels[k] {
            ucoord(i, w + 1, end)
        } else {
            None
        };
        match got {
            Some((np, u)) => {
                proof {
                    assert(spec_axis(coord_labels@[k as int], i@, p as int, end as int)
                        == Option::Some((np as int, u.bits as int)));
                }
                coords.push(Some(u));
                p = np;
            },
            None => {
                proof {
                    assert(spec_axis(coord_labels@[k as int], i@, p as int, end as int) is None);
                }
                coords.push(None);
            },
        }
        proof {
            let f = |o: Option<UCoord>|
                match o {
                    Option::Some(u) => Option::Some(u.bits as int),
                    Option::None => Option::None,
                };
            let rest = spec_upos_from(coord_labels@, k + 1, i@, p as int, end as int);
            assert(coords@.map_values(f) + rest.1 =~= coords@.map_values(f).drop_last() + (seq![
                f(coords@.last()),
            ] + rest.1));
            assert(coords@.map_values(f).drop_last() =~= coords@.drop_last().map_values(f));
        }
        k = k + 1;
    }
    proof {
        let f = |o: Option<UCoord>|
            match o {
                Option::Some(u) => Option::Some(u.bits as int),
                Option::None => Option::None,
            };
        assert(coords@.map_values(f) + Seq::<Option<int>>::empty() =~= coords@.map_values(f));
    }
    (p, UPos(coords))
}

/// Parse a position and require at least one axis to be present.
pub fn non_empty_upos(coord_labels: &[u8], i: &[u8], from: usize, end: usize) -> (r: Option<
    (usize, UPos),
>)
    requires
        from <= end <= i@.len(),
    ensures
        ({
            let sp = spec_upos_from(coord_labels@, 0, i@, from as int, end as int);
            match r {
                Option::Some((p, pos)) => pos_any_present(sp.1) && p == sp.0 && pos@ == sp.1 && from
                    <= p <= end,
                Option::None => !pos_any_present(sp.1),
            }
        }),
{
    let (p, pos) = upos(coord_labels, i, from, end);
    if pos.any_present() {
        Some((p, pos))
    } else {
        None
    }
}

/// Parse the letter `G` followed by the given code literal.
pub fn g(code: &[u8], i: &[u8], from: usize, end: usize) -> (r: Option<usize>)
    requires
        from <= end <= i@.len(),
    ensures
        match r {
            Option::Some(p) => from < end && i@[from as int] == 71 && lit_at(
                i@,
                from + 1,
                end as int,
                code@,
            ) && p == from + 1 + code@.len(),
            Option::None => !(from < end && i@[from as int] == 71 && lit_at(
                i@,
                from + 1,
                end as int,
                code@,
            )),
        },
{
    if from < end && i[from] == 71 {
        take_lit(i, from + 1, end, code)
    } else {
        None
    }
}

/// Parse the letter `M` followed by the given code literal.
pub fn m(code: &[u8], i: &[u8], from: usize, end: usize) -> (r: Option<usize>)
    requires
        from <= end <= i@.len(),
    ensures
        match r {
            Option::Some(p) => from < end && i@[from as int] == 77 && lit_at(
                i@,
                from + 1,
                end as int,
                code@,
            ) && p == from + 1 + code@.len(),
            Option::None => !(from < end && i@[from as int] == 77 && lit_at(
                i@,
                from + 1,
                end as int,
                code@,
            )),
        },
{
    if from < end && i[from] == 77 {
        take_lit(i, from + 1, end, code)
    } else {
        None
    }
}

/// Parse `G<code>`, at least one space, then a position (possibly empty).
pub fn upos_g_command(g_code: &[u8], coord_labels: &[u8], i: &[u8], from: usize, end: usize) -> (r:
    Option<(usize, UPos)>)
    requires
        from <= end <= i@.len(),
    ensures
        match r {
            Option::Some((p, pos)) => {
                let gp = from + 1 + g_code@.len();
                let w = spaces_end(i@, gp, end as int);
                let sp = spec_upos_from(coord_labels@, 0, i@, w, end as int);
                &&& from < end && i@[from as int] == 71
                &&& lit_at(i@, from + 1, end as int, g_code@)
                &&& w > gp
                &&& p == sp.0 && pos@ == sp.1
            },
            Option::None => !(from < end && i@[from as int] == 71 && lit_at(
                i@,
                from + 1,
                end as int,
                g_code@,
            ) && spaces_end(i@, from + 1 + g_code@.len(), end as int) > from + 1 + g_code@.len()),
        },
{
    match g(g_code, i, from, end) {
        Some(gp) => {
            let w = skip_spaces(i, gp, end);
            if w > gp {
                let (p, pos) = upos(coord_labels, i, w, end);
                Some((p, pos))
            } else {
                None
            }
        },
        None => None,
    }
}

/// Parse `G<code>` immediately followed by a non-empty position.
pub fn non_empty_upos_g_command(g_code: &[u8], coord_labels: &[u8], i: &[u8], from: usize, end: usize)
    -> (r: Option<(usize, UPos)>)
    requires
        from <= end <= i@.len(),
    ensures
        ({
            let gp = from + 1 + g_code@.len();
            let sp = spec_upos_from(coord_labels@, 0, i@, gp, end as int);
            match r {
                Option::Some((p, pos)) => {
                    &&& from < end && i@[from as int] == 71
                    &&& lit_at(i@, from + 1, end as int, g_code@)
                    &&& pos_any_present(sp.1)
                    &&& p == sp.0 && pos@ == sp.1
                },
                Option::None => !(from < end && i@[from as int] == 71 && lit_at(
                    i@,
                    from + 1,
                    end as int,
                    g_code@,
                ) && pos_any_present(sp.1)),
            }
        }),
{
    match g(g_code, i, from, end) {
        Some(gp) => non_empty_upos(coord_labels, i, gp, end),
        None => None,
    }
}

/// Parse the dwell command `G4 S<secs>` or `G4 P<millis>`.
pub fn dwell(i: &[u8], from: usize, end: usize) -> (r: Option<(usize, Command)>)
    requires
        from <= end <= i@.len(),
    ensures
        match r {
            Option::Some((p, cmd)) => {
                &&& lit_at(i@, from as int, end as int, seq![71u8, 52u8])
                &&& from <= p <= end
                &&& spec_dwell_arg(i@, from + 2, end as int) matches Option::Some((sp, ms))
                    && p == sp && cmd@ == CommandModel::Dwell(ms)
            },
            Option::None => !(lit_at(i@, from as int, end as int, seq![71u8, 52u8])
                && spec_dwell_arg(i@, from + 2, end as int) is Some),
        },
{
    let lit: [u8; 2] = [71, 52];
    match take_lit(i, from, end, &lit) {
        Some(gp) => {
            proof {
                assert(lit@ =~= seq![71u8, 52u8]);
            }
            let w = skip_spaces(i, gp, end);
            if w > gp && w < end && (i[w] == 83 || i[w] == 80) && w + 1 < end && 48 <= i[w + 1]
                && i[w + 1] <= 57 {
                let de = skip_digits(i, w + 1, end);
                proof {
                    lemma_digits_end_props(i@, w + 1, end as int);
                    lemma_dec_value_nonneg(i@, w + 1, de as int);
                }
                let n = scan_uint_clamped(i, w + 1, de);
                let ghost dec = dec_value(i@, w + 1, de as int);
                let millis: u64 = if i[w] == 83 {
                    if n > u64::MAX / 1000 {
                        proof {
                            assert(dec * 1000 > u64::MAX) by (nonlinear_arith)
                                requires
                                    dec > u64::MAX / 1000,
                            ;
                        }
                        u64::MAX
                    } else {
                        proof {
                            assert(n == dec);
                            assert(dec * 1000 <= u64::MAX) by (nonlinear_arith)
                                requires
                                    0 <= dec <= u64::MAX / 1000,
                            ;
                        }
                        n * 1000
                    }
                } else {
                    n
                };
                Some((de, Command::Dwell(millis)))
            } else {
                None
            }
        },
        None => None,
    }
}

/// Parse one whole command at `from..end`; the input must hold nothing else.
/// The alternatives are tried in a fixed order; their literals are
/// prefix-free, so the order never matters.
fn command_at(coord_labels: &[u8], i: &[u8], from: usize, end: usize) -> (r: Option<
    (usize, Command),
>)
    requires
        from <= end <= i@.len(),
    ensures
        match r {
            Option::Some((p, cmd)) => spec_command(coord_labels@, i@, from as int, end as int)
                == Option::Some((p as int, cmd@)) && from <= p <= end,
            Option::None => spec_command(coord_labels@, i@, from as int, end as int) is None,
        },
{
    let g0: [u8; 2] = [71, 48];
    let g1: [u8; 2] = [71, 49];
    let g4: [u8; 2] = [71, 52];
    let m0: [u8; 2] = [77, 48];
    let m17: [u8; 3] = [77, 49, 55];
    let m18: [u8; 3] = [77, 49, 56];
    let g28: [u8; 3] = [71, 50, 56];
    let g27: [u8; 3] = [71, 50, 55];
    proof {
        assert(g0@ =~= seq![71u8, 48u8]);
        assert(g1@ =~= seq![71u8, 49u8]);
        assert(g4@ =~= seq![71u8, 52u8]);
        assert(m0@ =~= seq![77u8, 48u8]);
        assert(m17@ =~= seq![77u8, 49u8, 55u8]);
        assert(m18@ =~= seq![77u8, 49u8, 56u8]);
        assert(g28@ =~= seq![71u8, 50u8, 56u8]);
        assert(g27@ =~= seq![71u8, 50u8, 55u8]);
    }
    if let Some(p0) = take_lit(i, from, end, &g0) {
        let (p, pos) = upos(coord_labels, i, p0, end);
        if pos.any_present() {
            return Some((p, Command::RapidMove(pos)));
        } else {
            return None;
        }
    }
    if let Some(p0) = take_lit(i, from, end, &g1) {
        let (p, pos) = upos(coord_labels, i, p0, end);
        if pos.any_present() {
            return Some((p, Command::LinearMove(pos)));
        } else {
            return None;
        }
    }
    if let Some(r) = dwell(i, from, end) {
        return Some(r);
    }
    proof {
        // a failed dwell parse on a "G4" line means the whole line fails
        assert(lit_at(i@, from as int, end as int, seq![71u8, 52u8]) ==> spec_command(
            coord_labels@,
            i@,
            from as int,
            end as int,
        ) is None);
    }
    if take_lit(i, from, end, &g4).is_some() {
        return None;
    }
    if let Some(p) = take_lit(i, from, end, &m0) {
        return Some((p, Command::Stop));
    }
    if let Some(p) = take_lit(i, from, end, &m17) {
        return Some((p, Command::EnableAllSteppers));
    }
    if let Some(p) = take_lit(i, from, end, &m18) {
        return Some((p, Command::DisableAllSteppers));
    }
    if let Some(p) = take_lit(i, from, end, &g28) {
        return Some((p, Command::Home));
    }
    if let Some(p0) = take_lit(i, from, end, &g27) {
        let (p, pos) = upos(coord_labels, i, p0, end);
        if pos.any_present() {
            return Some((p, Command::Park(Some(pos))));
        } else {
            return Some((p, Command::Park(None)));
        }
    }
    None
}

/// Parse one whole command that spans the entire input.
///
/// On success the returned offset is the number of bytes consumed.
pub fn command(coord_labels: &[u8], i: &[u8]) -> (r: Result<(usize, Command), Error>)
    ensures
        match r {
            Result::Ok((p, cmd)) => spec_command(coord_labels@, i@, 0, i@.len() as int)
                == Option::Some((p as int, cmd@)),
            Result::Err(e) => e == Error::ParseFailed && spec_command(
                coord_labels@,
                i@,
                0,
                i@.len() as int,
            ) is None,
        },
{
    match command_at(coord_labels, i, 0, i.len()) {
        Some((p, cmd)) => Ok((p, cmd)),
        None => Err(Error::ParseFailed),
    }
}

/// What a prefix of the byte stream holds: a command line, a malformed
/// line, or not yet a whole line.
pub open spec fn spec_parse_single(labels: Seq<u8>, s: Seq<u8>) -> Option<
    Option<(int, CommandModel)>,
> {
    let nl = newline_at(s);
    if nl >= s.len() {
        // no newline yet: incomplete
        Option::None
    } else {
        match spec_command(labels, s, 0, nl) {
            Option::Some((p, c)) => if p == nl {
                Option::Some(Option::Some((nl + 1, c)))
            } else {
                Option::Some(Option::None)
            },
            Option::None => Option::Some(Option::None),
        }
    }
}

/// Parse one newline-terminated command from the head of `input`.
///
/// Returns how many bytes were consumed (the line and its newline) and the
/// command.  Without a newline the input is a prefix of a line and more
/// bytes are needed; with one, a line that is not exactly one command fails.
/// Streaming is resolved at line granularity: a viable prefix always gets
/// `Incomplete`, and a prefix that can never become a command also gets
/// `Incomplete` until its newline arrives, at which point it fails.  The
/// host speaks in whole newline-terminated lines, so rejection is at most
/// one read later than an eager check would give.
pub fn parse_single_command(axis_labels: &[u8], input: &[u8]) -> (r: Result<
    (usize, Command),
    Error,
>)
    ensures
        match spec_parse_single(axis_labels@, input@) {
            Option::None => r == Result::<(usize, Command), Error>::Err(Error::Incomplete),
            Option::Some(out) => match out {
                Option::Some((consumed, c)) => {
                    &&& r matches Result::Ok((n, cmd))
                    &&& n == consumed
                    &&& cmd@ == c
                },
                Option::None => r == Result::<(usize, Command), Error>::Err(Error::ParseFailed),
            },
        },
{
    let len = input.len();
    let mut nl: usize = 0;
    while nl < len && input[nl] != 10
        invariant
            nl <= len == input@.len(),
            newline_at(input@) == newline_from(input@, nl as int),
        decreases len - nl,
    {
        nl = nl + 1;
    }
    if nl >= len {
        return Err(Error::Incomplete);
    }
    match command_at(axis_labels, input, 0, nl) {
        Some((p, cmd)) => {
            if p == nl {
                Ok((nl + 1, cmd))
            } else {
                Err(Error::ParseFailed)
            }
        },
        None => Err(Error::ParseFailed),
    }
}

} // verus!
