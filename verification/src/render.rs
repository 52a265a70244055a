//! The record formatter.
//!
//! A decoded log entry is rendered in one of three mutually exclusive output
//! styles, chosen once per run: `Decorated` adds terminal colors with the
//! instance color picked deterministically from the identifier, `Pretty`
//! uses the same field layout without colors, and `Raw` prints the message
//! text alone.  Rendering is a pure function of the entry.  The module also
//! holds the one trusted call that strips embedded terminal escape sequences
//! from a reassembled block before structural decoding.

use vstd::prelude::*;

verus! {

/// A decoded structured log record: the free-text payload, its ISO-8601
/// timestamp and the instance label it came from.
pub struct LogEntry {
    pub message: Vec<u8>,
    pub time: Vec<u8>,
    pub instance_id: Vec<u8>,
}

/// The mathematical model of a decoded entry: the bytes of its three fields.
pub struct LogEntryModel {
    pub message: Seq<u8>,
    pub time: Seq<u8>,
    pub instance_id: Seq<u8>,
}

impl View for LogEntry {
    type V = LogEntryModel;

    open spec fn view(&self) -> LogEntryModel {
        LogEntryModel {
            message: self.message@,
            time: self.time@,
            instance_id: self.instance_id@,
        }
    }
}

/// `n` space bytes.
pub open spec fn spaces(n: nat) -> Seq<u8> {
    Seq::new(n, |i: int| 32u8)
}

/// A field left-aligned in a column of `width` bytes: short fields are
/// padded with spaces on the right, longer fields stay as they are.
pub open spec fn pad_to(field: Seq<u8>, width: nat) -> Seq<u8> {
    if field.len() >= width {
        field
    } else {
        field + spaces((width - field.len()) as nat)
    }
}

/// The sum of the byte values of a field.
pub open spec fn byte_sum(field: Seq<u8>) -> nat
    decreases field.len(),
{
    if field.len() == 0 {
        0
    } else {
        byte_sum(field.drop_last()) + field.last() as nat
    }
}

/// Which of the five palette colors an instance identifier selects: the sum
/// of its byte values modulo the palette size, so the same instance keeps
/// the same color within a run.
pub open spec fn palette_index(id: Seq<u8>) -> nat {
    byte_sum(id) % 5
}

/// The escape sequence of palette color `index`: yellow, green, blue, red,
/// cyan, in that order.
pub open spec fn color_code(index: nat) -> Seq<u8> {
    if index == 0 {
        seq![27u8, 91, 51, 51, 109]
    } else if index == 1 {
        seq![27u8, 91, 51, 50, 109]
    } else if index == 2 {
        seq![27u8, 91, 51, 52, 109]
    } else if index == 3 {
        seq![27u8, 91, 51, 49, 109]
    } else {
        seq![27u8, 91, 51, 54, 109]
    }
}

/// The escape sequence that resets the foreground color.
pub open spec fn color_reset() -> Seq<u8> {
    seq![27u8, 91, 51, 57, 109]
}

/// The message text alone.
pub open spec fn raw_rendering(entry: LogEntryModel) -> Seq<u8> {
    entry.message
}

/// `[ID] TIME | MESSAGE` with the identifier in a column of 19 bytes and
/// the timestamp in a column of 30.
pub open spec fn pretty_rendering(entry: LogEntryModel) -> Seq<u8> {
    seq![91u8] + pad_to(entry.instance_id, 19) + seq![93u8, 32] + pad_to(entry.time, 30) + seq![
        32u8,
        124,
        32,
    ] + entry.message
}

/// The pretty layout with the identifier in its selected palette color and
/// the timestamp always in the success color, green.
pub open spec fn decorated_rendering(entry: LogEntryModel) -> Seq<u8> {
    seq![91u8] + color_code(palette_index(entry.instance_id)) + pad_to(entry.instance_id, 19)
        + color_reset() + seq![93u8, 32] + color_code(1) + pad_to(entry.time, 30) + color_reset()
        + seq![32u8, 124, 32] + entry.message
}

/// One output style: every style renders a decoded entry to the exact bytes
/// its `rendering` function describes.
pub trait RenderStyle {
    /// The bytes this style produces for a decoded entry.
    spec fn rendering(entry: LogEntryModel) -> Seq<u8>;

    /// Render one entry.
    fn render(&self, entry: &LogEntry) -> (out: Vec<u8>)
        ensures
            out@ == Self::rendering(entry@),
    ;
}

/// Rendering is pure: two entries that hold the same bytes render to the
/// same bytes under any style, so feeding the same well-formed record
/// through the formatter repeatedly yields byte-identical output.
pub proof fn lemma_render_pure<S: RenderStyle>(first: LogEntryModel, second: LogEntryModel)
    requires
        first == second,
    ensures
        S::rendering(first) == S::rendering(second),
{
}

/// Left-align a field in a column of `width` bytes.
fn pad_field(field: &Vec<u8>, width: usize) -> (padded: Vec<u8>)
    ensures
        padded@ == pad_to(field@, width as nat),
{
    let mut padded = crate::bytes::push_all(Vec::new(), field);
    proof {
        assert(padded@ =~= field@);
        assert(spaces(0) =~= Seq::<u8>::empty());
        assert(field@ + spaces(0) =~= field@);
    }
    while padded.len() < width
        invariant
            padded@.len() >= field@.len(),
            field@.len() >= width ==> padded@.len() == field@.len(),
            field@.len() < width ==> padded@.len() <= width,
            padded@ == field@ + spaces((padded@.len() - field@.len()) as nat),
        decreases width - padded.len(),
    {
        let ghost n = (padded@.len() - field@.len()) as nat;
        padded.push(32);
        proof {
            assert(spaces(n).push(32u8) =~= spaces(n + 1));
            assert(field@ + spaces(n) + seq![32u8] =~= field@ + spaces(n + 1));
        }
    }
    proof {
        if field@.len() < width {
            assert(padded@.len() == width);
        } else {
            assert(padded@.len() == field@.len());
            assert(padded@ =~= field@);
        }
    }
    padded
}

/// The palette slot an identifier selects.
fn palette_of(id: &Vec<u8>) -> (index: u64)
    ensures
        index == palette_index(id@),
        index < 5,
{
    let mut acc: u64 = 0;
    let mut i: usize = 0;
    proof {
        assert(id@.take(0) =~= Seq::<u8>::empty());
    }
    while i < id.len()
        invariant
            i <= id.len(),
            acc == byte_sum(id@.take(i as int)) % 5,
        decreases id.len() - i,
    {
        let ghost sum_before = byte_sum(id@.take(i as int));
        let b = id[i];
        acc = (acc + b as u64) % 5;
        proof {
            assert(id@.take(i + 1).drop_last() =~= id@.take(i as int));
            assert(id@.take(i + 1).last() == id@[i as int]);
            assert(byte_sum(id@.take(i + 1)) == sum_before + b as nat);
            assert((sum_before % 5 + b as nat) % 5 == (sum_before + b as nat) % 5) by (nonlinear_arith);
        }
        i += 1;
    }
    proof {
        assert(id@.take(id@.len() as int) =~= id@);
    }
    acc
}

/// Append the escape sequence of palette color `index`.
fn push_color(out: Vec<u8>, index: u64) -> (extended: Vec<u8>)
    requires
        index < 5,
    ensures
        extended@ == out@ + color_code(index as nat),
{
    let mut extended = out;
    extended.push(27);
    extended.push(91);
    extended.push(51);
    if index == 0 {
        extended.push(51);
    } else if index == 1 {
        extended.push(50);
    } else if index == 2 {
        extended.push(52);
    } else if index == 3 {
        extended.push(49);
    } else {
        extended.push(54);
    }
    extended.push(109);
    proof {
        assert(extended@ =~= out@ + color_code(index as nat));
    }
    extended
}

/// Append the reset escape sequence.
fn push_reset(out: Vec<u8>) -> (extended: Vec<u8>)
    ensures
        extended@ == out@ + color_reset(),
{
    let mut extended = out;
    extended.push(27);
    extended.push(91);
    extended.push(51);
    extended.push(57);
    extended.push(109);
    proof {
        assert(extended@ =~= out@ + color_reset());
    }
    extended
}

/// The multi-color terminal style.
#[derive(Clone, Copy, Debug)]
pub struct Decorated;

/// The colorless detailed style.
#[derive(Clone, Copy, Debug)]
pub struct Pretty;

/// The message-only style.
#[derive(Clone, Copy, Debug)]
pub struct Raw;

impl RenderStyle for Decorated {
    open spec fn rendering(entry: LogEntryModel) -> Seq<u8> {
        decorated_rendering(entry)
    }

    fn render(&self, entry: &LogEntry) -> (out: Vec<u8>) {
        let index = palette_of(&entry.instance_id);
        let mut out: Vec<u8> = Vec::new();
        out.push(91);
        out = push_color(out, index);
        let id_padded = pad_field(&entry.instance_id, 19);
        out = crate::bytes::push_all(out, &id_padded);
        out = push_reset(out);
        out.push(93);
        out.push(32);
        out = push_color(out, 1);
        let time_padded = pad_field(&entry.time, 30);
        out = crate::bytes::push_all(out, &time_padded);
        out = push_reset(out);
        out.push(32);
        out.push(124);
        out.push(32);
        out = crate::bytes::push_all(out, &entry.message);
        proof {
            assert(out@ =~= decorated_rendering(entry@));
        }
        out
    }
}

impl RenderStyle for Pretty {
    open spec fn rendering(entry: LogEntryModel) -> Seq<u8> {
        pretty_rendering(entry)
    }

    fn render(&self, entry: &LogEntry) -> (out: Vec<u8>) {
        let mut out: Vec<u8> = Vec::new();
        out.push(91);
        let id_padded = pad_field(&entry.instance_id, 19);
        out = crate::bytes::push_all(out, &id_padded);
        out.push(93);
        out.push(32);
        let time_padded = pad_field(&entry.time, 30);
        out = crate::bytes::push_all(out, &time_padded);
        out.push(32);
        out.push(124);
        out.push(32);
        out = crate::bytes::push_all(out, &entry.message);
        proof {
            assert(out@ =~= pretty_rendering(entry@));
        }
        out
    }
}

impl RenderStyle for Raw {
    open spec fn rendering(entry: LogEntryModel) -> Seq<u8> {
        raw_rendering(entry)
    }

    fn render(&self, entry: &LogEntry) -> (out: Vec<u8>) {
        let out = crate::bytes::push_all(Vec::new(), &entry.message);
        proof {
            assert(out@ =~= raw_rendering(entry@));
        }
        out
    }
}

/// What stripping terminal escape sequences leaves of a block; a function of
/// the block's bytes alone.
pub uninterp spec fn ansi_stripped(block: Seq<u8>) -> Seq<u8>;

/// Relies on `strip_ansi_escapes::strip`: it feeds the bytes through a
/// terminal-sequence parser and keeps only the printable text, a
/// deterministic function of the input bytes.
#[verifier::external_body]
fn strip_ansi(block: &Vec<u8>) -> (cleaned: Vec<u8>)
    ensures
        cleaned@ == ansi_stripped(block@),
{
    strip_ansi_escapes::strip(block.as_slice())
}

/// Remove embedded terminal escape sequences from one reassembled block, so
/// that structural decoding sees plain text.
pub fn clean_block(block: &Vec<u8>) -> (cleaned: Vec<u8>)
    ensures
        cleaned@ == ansi_stripped(block@),
{
    strip_ansi(block)
}

} // verus!
