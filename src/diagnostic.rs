//! Compiler diagnostics as text, each with its place in the source.
use vstd::prelude::*;
use vstd::string::StringSliceAdditionalSpecFns;

verus! {

/// How grave a diagnostic is.
#[derive(Clone, Copy, Debug, PartialEq, Eq, Structural)]
pub enum Severity {
    Error,
    Warning,
}

/// An error or warning of the compiler.
pub struct Diagnostic {
    pub severity: Severity,
    /// The byte offset in the source where the diagnostic starts, if it has one.
    pub offset: Option<usize>,
    pub message: String,
}

pub open spec fn severity_text(s: Severity) -> Seq<char> {
    match s {
        Severity::Error => "error"@,
        Severity::Warning => "warning"@,
    }
}

/// A byte that continues a UTF-8 sequence rather than starting a character.
pub open spec fn is_continuation(b: u8) -> bool {
    128 <= b < 192
}

/// The 1-based line on which the text after `s` starts.
pub open spec fn line_of(s: Seq<u8>) -> nat
    decreases s.len(),
{
    if s.len() == 0 {
        1
    } else if s.last() == 10 {
        line_of(s.drop_last()) + 1
    } else {
        line_of(s.drop_last())
    }
}

/// The 1-based column, in characters, at which the text after `s` starts.
pub open spec fn column_of(s: Seq<u8>) -> nat
    decreases s.len(),
{
    if s.len() == 0 {
        1
    } else if s.last() == 10 {
        1
    } else if is_continuation(s.last()) {
        column_of(s.drop_last())
    } else {
        column_of(s.drop_last()) + 1
    }
}

/// The digit `d`, for `d < 10`.
pub open spec fn digit_char(d: nat) -> char {
    "0123456789"@[d as int]
}

/// `n` written in decimal.
pub open spec fn decimal(n: nat) -> Seq<char>
    decreases n,
{
    if n < 10 {
        seq![digit_char(n)]
    } else {
        decimal(n / 10) + seq![digit_char(n % 10)]
    }
}

/// `line:column` of `offset` in `source`, or `?:?` where the offset lies
/// outside the source or is missing.
pub open spec fn location(source: Seq<u8>, offset: Option<usize>) -> Seq<char> {
    match offset {
        Some(o) => if o <= source.len() {
            decimal(line_of(source.take(o as int))) + ":"@ + decimal(
                column_of(source.take(o as int)),
            )
        } else {
            "?:?"@
        },
        None => "?:?"@,
    }
}

/// One diagnostic as a line: `severity: line:column: message`.
pub open spec fn format_one(source: Seq<u8>, d: Diagnostic) -> Seq<char> {
    severity_text(d.severity) + ": "@ + location(source, d.offset) + ": "@ + d.message@ + "\n"@
}

/// All of `ds`, one line each, in order.
pub open spec fn format_all(source: Seq<u8>, ds: Seq<Diagnostic>) -> Seq<char>
    decreases ds.len(),
{
    if ds.len() == 0 {
        Seq::empty()
    } else {
        format_all(source, ds.drop_last()) + format_one(source, ds.last())
    }
}

fn digit_str(d: u128) -> (r: &'static str)
    requires
        d < 10,
    ensures
        r@ == seq![digit_char(d as nat)],
{
    proof {
        reveal_strlit("0123456789");
    }
    if d == 0 {
        proof { reveal_strlit("0"); }
        "0"
    } else if d == 1 {
        proof { reveal_strlit("1"); }
        "1"
    } else if d == 2 {
        proof { reveal_strlit("2"); }
        "2"
    } else if d == 3 {
        proof { reveal_strlit("3"); }
        "3"
    } else if d == 4 {
        proof { reveal_strlit("4"); }
        "4"
    } else if d == 5 {
        proof { reveal_strlit("5"); }
        "5"
    } else if d == 6 {
        proof { reveal_strlit("6"); }
        "6"
    } else if d == 7 {
        proof { reveal_strlit("7"); }
        "7"
    } else if d == 8 {
        proof { reveal_strlit("8"); }
        "8"
    } else {
        proof { reveal_strlit("9"); }
        "9"
    }
}

/// Appends `n` in decimal to `out`.
pub fn write_decimal(out: &mut String, n: u128)
    ensures
        final(out)@ == old(out)@ + decimal(n as nat),
    decreases n,
{
    if n >= 10 {
        write_decimal(out, n / 10);
    }
    out.append(digit_str(n % 10));
    proof {
        assert(final(out)@ =~= old(out)@ + decimal(n as nat));
    }
}

/// The line and column of byte `offset` of `bytes`.
fn locate(bytes: &[u8], offset: usize) -> (r: (u128, u128))
    requires
        offset <= bytes@.len(),
    ensures
        r.0 == line_of(bytes@.take(offset as int)),
        r.1 == column_of(bytes@.take(offset as int)),
{
    let mut line: u128 = 1;
    let mut column: u128 = 1;
    let mut i: usize = 0;
    while i < offset
        invariant
            i <= offset <= bytes@.len(),
            line == line_of(bytes@.take(i as int)),
            column == column_of(bytes@.take(i as int)),
            line <= i + 1,
            column <= i + 1,
        decreases offset - i,
    {
        let b = bytes[i];
        proof {
            assert(bytes@.take(i + 1).drop_last() =~= bytes@.take(i as int));
        }
        if b == 10 {
            line = line + 1;
            column = 1;
        } else if b < 128 || b >= 192 {
            column = column + 1;
        }
        i = i + 1;
    }
    (line, column)
}

/// Appends the line of `d` to `out`.
fn write_one(out: &mut String, source: &str, d: &Diagnostic)
    ensures
        final(out)@ == old(out)@ + format_one(source.spec_bytes(), *d),
{
    match d.severity {
        Severity::Error => out.append("error"),
        Severity::Warning => out.append("warning"),
    }
    out.append(": ");
    let bytes = source.as_bytes();
    match d.offset {
        Some(o) => {
            if o <= bytes.len() {
                let (line, column) = locate(bytes, o);
                write_decimal(out, line);
                out.append(":");
                write_decimal(out, column);
            } else {
                out.append("?:?");
            }
        },
        None => out.append("?:?"),
    }
    out.append(": ");
    out.append(d.message.as_str());
    out.append("\n");
    proof {
        assert(final(out)@ =~= old(out)@ + format_one(source.spec_bytes(), *d));
    }
}

/// The diagnostics `ds` as text, one line each, in order: for each, its
/// severity, the line and column in `source` where it starts, and its message.
pub fn format_diagnostics(source: &str, ds: &Vec<Diagnostic>) -> (r: String)
    ensures
        r@ == format_all(source.spec_bytes(), ds@),
{
    let mut out = String::new();
    let mut i: usize = 0;
    while i < ds.len()
        invariant
            i <= ds@.len(),
            out@ == format_all(source.spec_bytes(), ds@.take(i as int)),
        decreases ds@.len() - i,
    {
        proof {
            assert(ds@.take(i + 1).drop_last() =~= ds@.take(i as int));
        }
        write_one(&mut out, source, &ds[i]);
        i = i + 1;
    }
    proof {
        assert(ds@.take(ds@.len() as int) =~= ds@);
    }
    out
}

/// No diagnostics give no text; one diagnostic gives a line that is not
/// empty and that holds, after its severity, the place where it starts.
pub proof fn lemma_format_empty_and_single(source: Seq<u8>, d: Diagnostic)
    ensures
        format_all(source, Seq::empty()) == Seq::<char>::empty(),
        format_all(source, seq![d]).len() > 0,
        format_all(source, seq![d]).subrange(
            severity_text(d.severity).len() + 2int,
            severity_text(d.severity).len() + 2int + location(source, d.offset).len(),
        ) == location(source, d.offset),
{
    reveal_strlit("error");
    reveal_strlit("warning");
    reveal_strlit(": ");
    let one = seq![d];
    assert(one.drop_last() =~= Seq::<Diagnostic>::empty());
    assert(one.last() == d);
    assert(format_all(source, one.drop_last()) == Seq::<char>::empty());
    let r = format_all(source, one);
    assert(r =~= Seq::<char>::empty() + format_one(source, d));
    assert(r =~= format_one(source, d));
    let k = severity_text(d.severity).len() + 2int;
    assert(r.subrange(k, k + location(source, d.offset).len()) =~= location(source, d.offset));
}

} // verus!
