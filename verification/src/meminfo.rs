//! Parsing the host's line-oriented memory table.
//!
//! Exactly five counters are recognized, each by line prefix; on a
//! recognized line the second whitespace-delimited token is read as an
//! unsigned decimal and converted to bytes with a factor of 1000.
//! Unrecognized lines are ignored, and a counter that never appears stays
//! zero. A recognized line whose value cannot be read makes the whole
//! table malformed, which the caller surfaces as a failed metrics call.
//!
//! The host reports its counters in kibibyte units; the decimal factor of
//! 1000 is this system's deliberate convention for the byte figures it
//! shows, kept here so every reader of the numbers agrees on them.
//!
//! The table is read as raw bytes, and tokens are delimited by the ASCII
//! whitespace bytes alone: the host writes the table in ASCII, and that is
//! stated here as the format's convention, so any other byte — including
//! one of a multi-byte character — counts as token content.

use vstd::prelude::*;

use crate::messages::Memory;

verus! {

pub const NEWLINE: u8 = 10;

/// The ASCII whitespace bytes that delimit tokens within a line.
pub open spec fn is_ws(b: u8) -> bool {
    b == 32 || b == 9 || b == 10 || b == 11 || b == 12 || b == 13
}

pub open spec fn has_no_newline(s: Seq<u8>) -> bool {
    forall|k: int| 0 <= k < s.len() ==> s[k] != NEWLINE
}

/// The table split at newlines; the text after the last newline is a line
/// of its own, so the result is never empty.
pub open spec fn split_lines(t: Seq<u8>) -> Seq<Seq<u8>>
    decreases t.len(),
{
    if t.len() == 0 {
        seq![Seq::<u8>::empty()]
    } else if t[0] == NEWLINE {
        seq![Seq::<u8>::empty()] + split_lines(t.drop_first())
    } else {
        let rest = split_lines(t.drop_first());
        seq![seq![t[0]] + rest[0]] + rest.drop_first()
    }
}

/// A text without newlines is one line.
pub proof fn lemma_split_lines_whole(t: Seq<u8>)
    requires
        has_no_newline(t),
    ensures
        split_lines(t) == seq![t],
    decreases t.len(),
{
    if t.len() == 0 {
        assert(split_lines(t) =~~= seq![t]);
    } else {
        assert(has_no_newline(t.drop_first()));
        lemma_split_lines_whole(t.drop_first());
        assert(seq![t[0]] + t.drop_first() =~= t);
        assert(split_lines(t) =~~= seq![t]);
    }
}

/// Splitting a text that starts with a full line: that line, then the
/// lines of what follows its newline.
pub proof fn lemma_split_lines_cons(line: Seq<u8>, rest: Seq<u8>)
    requires
        has_no_newline(line),
    ensures
        split_lines(line + seq![NEWLINE] + rest) == seq![line] + split_lines(rest),
    decreases line.len(),
{
    let t = line + seq![NEWLINE] + rest;
    if line.len() == 0 {
        assert(t[0] == NEWLINE);
        assert(t.drop_first() =~= rest);
        assert(split_lines(t) =~~= seq![line] + split_lines(rest));
    } else {
        assert(t[0] == line[0]);
        assert(t[0] != NEWLINE);
        assert(has_no_newline(line.drop_first()));
        assert(t.drop_first() =~= line.drop_first() + seq![NEWLINE] + rest);
        lemma_split_lines_cons(line.drop_first(), rest);
        let inner = split_lines(t.drop_first());
        assert(inner == seq![line.drop_first()] + split_lines(rest));
        assert(inner[0] == line.drop_first());
        assert(seq![t[0]] + inner[0] =~= line);
        assert(inner.drop_first() =~= split_lines(rest));
        assert(split_lines(t) =~~= seq![line] + split_lines(rest));
    }
}

/// The line with its leading whitespace removed.
pub open spec fn skip_ws(s: Seq<u8>) -> Seq<u8>
    decreases s.len(),
{
    if s.len() > 0 && is_ws(s[0]) {
        skip_ws(s.drop_first())
    } else {
        s
    }
}

/// The longest whitespace-free prefix: one token.
pub open spec fn take_token(s: Seq<u8>) -> Seq<u8>
    decreases s.len(),
{
    if s.len() > 0 && !is_ws(s[0]) {
        seq![s[0]] + take_token(s.drop_first())
    } else {
        Seq::empty()
    }
}

/// What remains after that token.
pub open spec fn drop_token(s: Seq<u8>) -> Seq<u8>
    decreases s.len(),
{
    if s.len() > 0 && !is_ws(s[0]) {
        drop_token(s.drop_first())
    } else {
        s
    }
}

/// The second whitespace-delimited token of a line; empty when the line
/// has fewer than two tokens.
pub open spec fn second_token(line: Seq<u8>) -> Seq<u8> {
    take_token(skip_ws(drop_token(skip_ws(line))))
}

pub open spec fn all_digits(s: Seq<u8>) -> bool {
    forall|i: int| 0 <= i < s.len() ==> 48 <= #[trigger] s[i] <= 57
}

/// The value of a decimal digit string, most significant digit first.
pub open spec fn dec_value(s: Seq<u8>) -> int
    decreases s.len(),
{
    if s.len() == 0 {
        0
    } else {
        dec_value(s.drop_last()) * 10 + s.last() - 48
    }
}

pub proof fn lemma_dec_value_nonneg(s: Seq<u8>)
    requires
        all_digits(s),
    ensures
        dec_value(s) >= 0,
    decreases s.len(),
{
    if s.len() > 0 {
        assert(all_digits(s.drop_last()));
        lemma_dec_value_nonneg(s.drop_last());
    }
}

/// A digit string is worth at least any of its prefixes.
pub proof fn lemma_dec_value_take_bound(s: Seq<u8>, i: int)
    requires
        all_digits(s),
        0 <= i <= s.len(),
    ensures
        dec_value(s.take(i)) <= dec_value(s),
    decreases s.len(),
{
    if i == s.len() {
        assert(s.take(i) =~= s);
    } else {
        assert(all_digits(s.drop_last()));
        assert(s.drop_last().take(i) =~= s.take(i));
        lemma_dec_value_take_bound(s.drop_last(), i);
        lemma_dec_value_nonneg(s.drop_last());
    }
}

/// The number an agent's counter token denotes, read the way an unsigned
/// decimal parse reads it: an optional leading plus sign, then at least
/// one digit, and a value that fits in 64 bits.
pub open spec fn token_u64_val(tok: Seq<u8>) -> Option<u64> {
    let digits = if tok.len() > 0 && tok[0] == 43 {
        tok.drop_first()
    } else {
        tok
    };
    if digits.len() > 0 && all_digits(digits) && dec_value(digits) <= u64::MAX {
        Some(dec_value(digits) as u64)
    } else {
        None
    }
}

/// The five recognized counters.
#[derive(Clone, Copy, PartialEq, Eq, Structural, Debug)]
pub enum MemKey {
    Total,
    Free,
    Available,
    Buffers,
    Cached,
}

/// The line prefix that announces each counter, as ASCII bytes:
/// `MemTotal`, `MemFree`, `MemAvailable`, `Buffers`, `Cached`.
pub open spec fn key_prefix(k: MemKey) -> Seq<u8> {
    match k {
        MemKey::Total => seq![77u8, 101, 109, 84, 111, 116, 97, 108],
        MemKey::Free => seq![77u8, 101, 109, 70, 114, 101, 101],
        MemKey::Available => seq![77u8, 101, 109, 65, 118, 97, 105, 108, 97, 98, 108, 101],
        MemKey::Buffers => seq![66u8, 117, 102, 102, 101, 114, 115],
        MemKey::Cached => seq![67u8, 97, 99, 104, 101, 100],
    }
}

/// Which counter a line announces, if any. The five prefixes are mutually
/// exclusive, so the order of the checks does not matter.
pub open spec fn spec_line_key(line: Seq<u8>) -> Option<MemKey> {
    if key_prefix(MemKey::Total).is_prefix_of(line) {
        Some(MemKey::Total)
    } else if key_prefix(MemKey::Available).is_prefix_of(line) {
        Some(MemKey::Available)
    } else if key_prefix(MemKey::Free).is_prefix_of(line) {
        Some(MemKey::Free)
    } else if key_prefix(MemKey::Buffers).is_prefix_of(line) {
        Some(MemKey::Buffers)
    } else if key_prefix(MemKey::Cached).is_prefix_of(line) {
        Some(MemKey::Cached)
    } else {
        None
    }
}

/// What one line contributes to the table.
#[derive(Clone, Copy, PartialEq, Eq, Structural, Debug)]
pub enum LineOutcome {
    /// No recognized counter on this line.
    Ignored,
    /// A recognized counter and its value in bytes.
    Entry(MemKey, u64),
    /// A recognized counter whose value cannot be read, or whose byte
    /// count does not fit in 64 bits.
    Malformed,
}

pub open spec fn spec_line_outcome(line: Seq<u8>) -> LineOutcome {
    match spec_line_key(line) {
        None => LineOutcome::Ignored,
        Some(k) => match token_u64_val(second_token(line)) {
            None => LineOutcome::Malformed,
            Some(v) => if v * 1000 <= u64::MAX {
                LineOutcome::Entry(k, (v * 1000) as u64)
            } else {
                LineOutcome::Malformed
            },
        },
    }
}

/// One counter written into the table; a later line for the same counter
/// overwrites an earlier one.
pub open spec fn set_key(m: Memory, k: MemKey, v: u64) -> Memory {
    match k {
        MemKey::Total => Memory { mem_total: v, ..m },
        MemKey::Free => Memory { mem_free: v, ..m },
        MemKey::Available => Memory { mem_available: v, ..m },
        MemKey::Buffers => Memory { buffers: v, ..m },
        MemKey::Cached => Memory { cached: v, ..m },
    }
}

/// The table after reading the given lines in order, starting from the
/// given counters; `None` when some line is malformed.
pub open spec fn scan_from(m: Memory, lines: Seq<Seq<u8>>) -> Option<Memory>
    decreases lines.len(),
{
    if lines.len() == 0 {
        Some(m)
    } else {
        match spec_line_outcome(lines[0]) {
            LineOutcome::Ignored => scan_from(m, lines.drop_first()),
            LineOutcome::Entry(k, v) => scan_from(set_key(m, k, v), lines.drop_first()),
            LineOutcome::Malformed => None,
        }
    }
}

/// The whole parse: every counter starts at zero, every line is read in
/// order.
pub open spec fn spec_parse_meminfo(t: Seq<u8>) -> Option<Memory> {
    scan_from(Memory::spec_zeroed(), split_lines(t))
}

proof fn lemma_scan_ignored(m: Memory, lines: Seq<Seq<u8>>)
    requires
        forall|i: int| 0 <= i < lines.len() ==> spec_line_key(#[trigger] lines[i]) is None,
    ensures
        scan_from(m, lines) == Some(m),
    decreases lines.len(),
{
    if lines.len() > 0 {
        assert(spec_line_key(lines[0]) is None);
        assert(forall|i: int|
            0 <= i < lines.drop_first().len() ==> spec_line_key(
                #[trigger] lines.drop_first()[i],
            ) is None) by {
            assert(forall|i: int|
                0 <= i < lines.drop_first().len() ==> lines.drop_first()[i] == lines[i + 1]);
        }
        lemma_scan_ignored(m, lines.drop_first());
    }
}

/// A table none of whose lines announces a recognized counter is not an
/// error: it parses, and every counter stays zero.
pub proof fn lemma_unrecognized_table_all_zero(t: Seq<u8>)
    requires
        forall|i: int|
            0 <= i < split_lines(t).len() ==> spec_line_key(#[trigger] split_lines(t)[i]) is None,
    ensures
        spec_parse_meminfo(t) == Some(Memory::spec_zeroed()),
{
    lemma_scan_ignored(Memory::spec_zeroed(), split_lines(t));
}

#[derive(Clone, Copy, PartialEq, Eq, Structural, Debug)]
pub enum MeminfoError {
    /// Some recognized line's value could not be read.
    MalformedValue,
}

fn is_ws_byte(b: u8) -> (r: bool)
    ensures
        r == is_ws(b),
{
    b == 32 || b == 9 || b == 10 || b == 11 || b == 12 || b == 13
}

/// The first non-whitespace position at or after `from`.
fn skip_ws_from(line: &[u8], from: usize) -> (i: usize)
    requires
        from <= line@.len(),
    ensures
        from <= i <= line@.len(),
        skip_ws(line@.skip(from as int)) == line@.skip(i as int),
{
    let mut i = from;
    while i < line.len() && is_ws_byte(line[i])
        invariant
            from <= i <= line@.len(),
            skip_ws(line@.skip(from as int)) == skip_ws(line@.skip(i as int)),
        decreases line@.len() - i,
    {
        proof {
            assert(line@.skip(i as int).drop_first() =~= line@.skip(i + 1));
        }
        i = i + 1;
    }
    i
}

/// The end of the token that starts at `from`.
fn token_end_from(line: &[u8], from: usize) -> (j: usize)
    requires
        from <= line@.len(),
    ensures
        from <= j <= line@.len(),
        take_token(line@.skip(from as int)) == line@.subrange(from as int, j as int),
        drop_token(line@.skip(from as int)) == line@.skip(j as int),
{
    let mut j = from;
    while j < line.len() && !is_ws_byte(line[j])
        invariant
            from <= j <= line@.len(),
            take_token(line@.skip(from as int)) == line@.subrange(from as int, j as int)
                + take_token(line@.skip(j as int)),
            drop_token(line@.skip(from as int)) == drop_token(line@.skip(j as int)),
        decreases line@.len() - j,
    {
        proof {
            assert(line@.skip(j as int).drop_first() =~= line@.skip(j + 1));
            assert(line@.subrange(from as int, j as int) + seq![line@[j as int]] =~= line@.subrange(
                from as int,
                j + 1,
            ));
        }
        j = j + 1;
    }
    proof {
        assert(take_token(line@.skip(j as int)) =~= Seq::<u8>::empty());
        assert(line@.subrange(from as int, j as int) + Seq::<u8>::empty() =~= line@.subrange(
            from as int,
            j as int,
        ));
    }
    j
}

/// Where the second token of the line stands.
fn second_token_bounds(line: &[u8]) -> (r: (usize, usize))
    ensures
        r.0 <= r.1 <= line@.len(),
        second_token(line@) == line@.subrange(r.0 as int, r.1 as int),
{
    proof {
        assert(line@.skip(0) =~= line@);
    }
    let a = skip_ws_from(line, 0);
    let b = token_end_from(line, a);
    let c = skip_ws_from(line, b);
    let d = token_end_from(line, c);
    (c, d)
}

/// Read one token as an unsigned 64-bit decimal.
fn parse_token_u64(tok: &[u8]) -> (r: Option<u64>)
    ensures
        r == token_u64_val(tok@),
{
    let mut ds: usize = 0;
    if tok.len() > 0 && tok[0] == 43 {
        ds = 1;
    }
    let ghost digits = if tok@.len() > 0 && tok@[0] == 43 {
        tok@.drop_first()
    } else {
        tok@
    };
    proof {
        assert(tok@.skip(ds as int) =~= digits);
    }
    if ds == tok.len() {
        return None;
    }
    let mut val: u64 = 0;
    let mut i = ds;
    while i < tok.len()
        invariant
            ds <= i <= tok@.len(),
            ds <= tok@.len(),
            digits == tok@.skip(ds as int),
            digits == (if tok@.len() > 0 && tok@[0] == 43 {
                tok@.drop_first()
            } else {
                tok@
            }),
            all_digits(digits.take(i - ds)),
            val == dec_value(digits.take(i - ds)),
        decreases tok@.len() - i,
    {
        let b = tok[i];
        proof {
            assert(digits[i - ds] == tok@[i as int]);
            assert(digits.take(i - ds + 1).drop_last() =~= digits.take(i - ds));
            assert(digits.take(i - ds + 1).last() == digits[i - ds]);
        }
        if b < 48 || b > 57 {
            proof {
                assert(!all_digits(digits));
            }
            return None;
        }
        let d = (b - 48) as u64;
        if val > (u64::MAX - d) / 10 {
            proof {
                assert(dec_value(digits.take(i - ds + 1)) == val * 10 + d);
                assert(val * 10 + d > u64::MAX);
                if all_digits(digits) {
                    lemma_dec_value_take_bound(digits, i - ds + 1);
                    assert(dec_value(digits) > u64::MAX);
                }
            }
            return None;
        }
        proof {
            assert(val * 10 + d <= u64::MAX);
        }
        val = val * 10 + d;
        i = i + 1;
    }
    proof {
        assert(digits.take(i - ds) =~= digits);
    }
    Some(val)
}

/// Whether `pfx` opens `line`.
fn is_prefix(line: &[u8], pfx: &[u8]) -> (b: bool)
    ensures
        b == pfx@.is_prefix_of(line@),
{
    if pfx.len() > line.len() {
        return false;
    }
    let mut i: usize = 0;
    while i < pfx.len()
        invariant
            i <= pfx@.len() <= line@.len(),
            forall|j: int| 0 <= j < i ==> pfx@[j] == line@[j],
        decreases pfx@.len() - i,
    {
        if line[i] != pfx[i] {
            proof {
                assert(pfx@[i as int] != line@.subrange(0, pfx@.len() as int)[i as int]);
            }
            return false;
        }
        i = i + 1;
    }
    proof {
        assert(pfx@ =~= line@.subrange(0, pfx@.len() as int));
    }
    true
}

/// The bytes of one recognized prefix.
fn key_prefix_vec(k: MemKey) -> (v: Vec<u8>)
    ensures
        v@ == key_prefix(k),
{
    let mut v: Vec<u8> = Vec::new();
    match k {
        MemKey::Total => {
            v.push(77);
            v.push(101);
            v.push(109);
            v.push(84);
            v.push(111);
            v.push(116);
            v.push(97);
            v.push(108);
        },
        MemKey::Free => {
            v.push(77);
            v.push(101);
            v.push(109);
            v.push(70);
            v.push(114);
            v.push(101);
            v.push(101);
        },
        MemKey::Available => {
            v.push(77);
            v.push(101);
            v.push(109);
            v.push(65);
            v.push(118);
            v.push(97);
            v.push(105);
            v.push(108);
            v.push(97);
            v.push(98);
            v.push(108);
            v.push(101);
        },
        MemKey::Buffers => {
            v.push(66);
            v.push(117);
            v.push(102);
            v.push(102);
            v.push(101);
            v.push(114);
            v.push(115);
        },
        MemKey::Cached => {
            v.push(67);
            v.push(97);
            v.push(99);
            v.push(104);
            v.push(101);
            v.push(100);
        },
    }
    proof {
        assert(v@ =~= key_prefix(k));
    }
    v
}

fn line_has_key(line: &[u8], k: MemKey) -> (b: bool)
    ensures
        b == key_prefix(k).is_prefix_of(line@),
{
    let pfx = key_prefix_vec(k);
    is_prefix(line, pfx.as_slice())
}

fn classify_line(line: &[u8]) -> (r: Option<MemKey>)
    ensures
        r == spec_line_key(line@),
{
    if line_has_key(line, MemKey::Total) {
        Some(MemKey::Total)
    } else if line_has_key(line, MemKey::Available) {
        Some(MemKey::Available)
    } else if line_has_key(line, MemKey::Free) {
        Some(MemKey::Free)
    } else if line_has_key(line, MemKey::Buffers) {
        Some(MemKey::Buffers)
    } else if line_has_key(line, MemKey::Cached) {
        Some(MemKey::Cached)
    } else {
        None
    }
}

fn line_outcome(line: &[u8]) -> (o: LineOutcome)
    ensures
        o == spec_line_outcome(line@),
{
    match classify_line(line) {
        None => LineOutcome::Ignored,
        Some(k) => {
            let (c, d) = second_token_bounds(line);
            let tok = &line[c..d];
            match parse_token_u64(tok) {
                None => LineOutcome::Malformed,
                Some(v) => {
                    if v <= u64::MAX / 1000 {
                        proof {
                            assert(v * 1000 <= u64::MAX);
                        }
                        LineOutcome::Entry(k, v * 1000)
                    } else {
                        proof {
                            assert(v * 1000 > u64::MAX);
                        }
                        LineOutcome::Malformed
                    }
                },
            }
        },
    }
}

fn apply_key(m: Memory, k: MemKey, v: u64) -> (r: Memory)
    ensures
        r == set_key(m, k, v),
{
    match k {
        MemKey::Total => Memory { mem_total: v, ..m },
        MemKey::Free => Memory { mem_free: v, ..m },
        MemKey::Available => Memory { mem_available: v, ..m },
        MemKey::Buffers => Memory { buffers: v, ..m },
        MemKey::Cached => Memory { cached: v, ..m },
    }
}

/// Parse a whole host memory table. Every recognized line sets its
/// counter; a table that recognizes nothing yields all zeroes, and a
/// recognized line without a readable value refuses the whole table.
pub fn parse_meminfo(text: &[u8]) -> (r: Result<Memory, MeminfoError>)
    ensures
        match r {
            Ok(m) => spec_parse_meminfo(text@) == Some(m),
            Err(_) => spec_parse_meminfo(text@) is None,
        },
{
    let mut m = Memory::zeroed();
    let mut i: usize = 0;
    proof {
        assert(text@.skip(0) =~= text@);
    }
    loop
        invariant
            i <= text@.len(),
            spec_parse_meminfo(text@) == scan_from(m, split_lines(text@.skip(i as int))),
        decreases text@.len() - i,
    {
        let mut j = i;
        while j < text.len() && text[j] != NEWLINE
            invariant
                i <= j <= text@.len(),
                forall|k: int| i <= k < j ==> text@[k] != NEWLINE,
            decreases text@.len() - j,
        {
            j = j + 1;
        }
        let line = &text[i..j];
        let ghost line_view = text@.subrange(i as int, j as int);
        proof {
            assert(has_no_newline(line_view));
        }
        let outcome = line_outcome(line);
        if j == text.len() {
            proof {
                assert(text@.skip(i as int) =~= line_view);
                lemma_split_lines_whole(line_view);
                assert(split_lines(text@.skip(i as int)) == seq![line_view]);
                assert(seq![line_view].len() == 1);
                assert(seq![line_view][0] == line_view);
                assert(seq![line_view].drop_first() =~= Seq::<Seq<u8>>::empty());
                assert(scan_from(m, seq![line_view].drop_first()) == Some(m));
            }
            match outcome {
                LineOutcome::Ignored => {
                    proof {
                        assert(scan_from(m, seq![line_view]) == Some(m));
                    }
                    return Ok(m);
                },
                LineOutcome::Entry(k, v) => {
                    let updated = apply_key(m, k, v);
                    proof {
                        assert(scan_from(set_key(m, k, v), seq![line_view].drop_first())
                            == Some(updated));
                        assert(scan_from(m, seq![line_view]) == Some(updated));
                    }
                    return Ok(updated);
                },
                LineOutcome::Malformed => {
                    return Err(MeminfoError::MalformedValue);
                },
            }
        } else {
            proof {
                assert(text@[j as int] == NEWLINE);
                assert(text@.skip(i as int) =~= line_view + seq![NEWLINE] + text@.skip(j + 1));
                lemma_split_lines_cons(line_view, text@.skip(j + 1));
                let lines = split_lines(text@.skip(i as int));
                assert(lines == seq![line_view] + split_lines(text@.skip(j + 1)));
                assert(lines[0] == line_view);
                assert(lines.drop_first() =~= split_lines(text@.skip(j + 1)));
            }
            match outcome {
                LineOutcome::Ignored => {},
                LineOutcome::Entry(k, v) => {
                    m = apply_key(m, k, v);
                },
                LineOutcome::Malformed => {
                    return Err(MeminfoError::MalformedValue);
                },
            }
            i = j + 1;
        }
    }
}

} // verus!
