//! The block reassembler.
//!
//! The log source hands over a line-oriented byte stream in which a line of
//! exactly `---` separates consecutive structured records.  The reassembler
//! folds that stream back into discrete record blocks: delimiter lines emit
//! the accumulated buffer when it holds more than whitespace and are ignored
//! otherwise, every other line is appended with horizontal tabs expanded to
//! four spaces and a trailing newline.  When a bounded stream ends without a
//! final delimiter, the remaining buffer is still emitted as one last block.

use vstd::prelude::*;

use crate::bytes::is_space_byte;

verus! {

/// The delimiter line `---`.
pub open spec fn sentinel() -> Seq<u8> {
    seq![45u8, 45, 45]
}

/// A text is blank when it holds nothing but ASCII whitespace.
pub open spec fn is_blank(text: Seq<u8>) -> bool {
    forall|i: int| 0 <= i < text.len() ==> is_space_byte(#[trigger] text[i])
}

/// A line with each horizontal tab replaced by exactly four spaces.
pub open spec fn expand_tabs(line: Seq<u8>) -> Seq<u8>
    decreases line.len(),
{
    if line.len() == 0 {
        Seq::<u8>::empty()
    } else {
        let rest = expand_tabs(line.drop_last());
        if line.last() == 9 {
            rest + seq![32u8, 32, 32, 32]
        } else {
            rest.push(line.last())
        }
    }
}

/// The number of horizontal tabs in a line.
pub open spec fn tab_count(line: Seq<u8>) -> nat
    decreases line.len(),
{
    if line.len() == 0 {
        0
    } else {
        tab_count(line.drop_last()) + if line.last() == 9 {
            1nat
        } else {
            0nat
        }
    }
}

/// Tab expansion replaces each tab by exactly four spaces: the result grows
/// by three bytes per tab, holds no tab, and a tab-free line is unchanged.
pub proof fn lemma_expand_tabs_shape(line: Seq<u8>)
    ensures
        expand_tabs(line).len() == line.len() + 3 * tab_count(line),
        forall|i: int| 0 <= i < expand_tabs(line).len() ==> #[trigger] expand_tabs(line)[i] != 9,
        tab_count(line) == 0 ==> expand_tabs(line) == line,
    decreases line.len(),
{
    if line.len() > 0 {
        lemma_expand_tabs_shape(line.drop_last());
        let rest = expand_tabs(line.drop_last());
        if line.last() == 9 {
            assert forall|i: int| 0 <= i < expand_tabs(line).len() implies #[trigger] expand_tabs(
                line,
            )[i] != 9 by {
                if i < rest.len() {
                    assert(expand_tabs(line)[i] == rest[i]);
                } else {
                    assert(expand_tabs(line)[i] == 32);
                }
            }
        } else {
            assert forall|i: int| 0 <= i < expand_tabs(line).len() implies #[trigger] expand_tabs(
                line,
            )[i] != 9 by {
                if i < rest.len() {
                    assert(expand_tabs(line)[i] == rest[i]);
                }
            }
            if tab_count(line) == 0 {
                assert(expand_tabs(line) =~= line);
            }
        }
    }
}

/// The buffer after a content line: the expanded line and a newline appended.
pub open spec fn appended_line(buffer: Seq<u8>, line: Seq<u8>) -> Seq<u8> {
    buffer + expand_tabs(line) + seq![10u8]
}

/// One pass of the reassembler over `lines`, starting from `buffer`: the
/// blocks it emits, in order, and the buffer it is left holding.
pub open spec fn run(lines: Seq<Seq<u8>>, buffer: Seq<u8>) -> (Seq<Seq<u8>>, Seq<u8>)
    decreases lines.len(),
{
    if lines.len() == 0 {
        (Seq::<Seq<u8>>::empty(), buffer)
    } else {
        let rest = lines.drop_first();
        if lines[0] == sentinel() {
            if is_blank(buffer) {
                run(rest, buffer)
            } else {
                let tail = run(rest, Seq::<u8>::empty());
                (seq![buffer] + tail.0, tail.1)
            }
        } else {
            run(rest, appended_line(buffer, lines[0]))
        }
    }
}

/// All blocks of a bounded stream: what the pass emits, plus the final
/// buffer when the stream ends without a trailing delimiter.
pub open spec fn blocks_of(lines: Seq<Seq<u8>>) -> Seq<Seq<u8>> {
    let outcome = run(lines, Seq::<u8>::empty());
    if is_blank(outcome.1) {
        outcome.0
    } else {
        outcome.0.push(outcome.1)
    }
}

/// A concatenation is blank exactly when both halves are.
pub proof fn lemma_blank_concat(a: Seq<u8>, b: Seq<u8>)
    ensures
        is_blank(a + b) == (is_blank(a) && is_blank(b)),
{
    if is_blank(a + b) {
        assert forall|i: int| 0 <= i < a.len() implies is_space_byte(#[trigger] a[i]) by {
            assert((a + b)[i] == a[i]);
        }
        assert forall|i: int| 0 <= i < b.len() implies is_space_byte(#[trigger] b[i]) by {
            assert((a + b)[a.len() + i] == b[i]);
        }
    }
    if is_blank(a) && is_blank(b) {
        assert forall|i: int| 0 <= i < (a + b).len() implies is_space_byte(#[trigger] (a + b)[i]) by {
            if i < a.len() {
                assert((a + b)[i] == a[i]);
            } else {
                assert((a + b)[i] == b[i - a.len()]);
            }
        }
    }
}

/// Appending a line keeps the buffer blank exactly when both the buffer and
/// the expanded line are blank.
pub proof fn lemma_blank_appended(buffer: Seq<u8>, line: Seq<u8>)
    ensures
        is_blank(appended_line(buffer, line)) == (is_blank(buffer) && is_blank(expand_tabs(line))),
{
    lemma_blank_concat(buffer + expand_tabs(line), seq![10u8]);
    lemma_blank_concat(buffer, expand_tabs(line));
    assert(is_blank(seq![10u8]));
}

proof fn lemma_run_blocks_not_blank(lines: Seq<Seq<u8>>, buffer: Seq<u8>)
    ensures
        forall|k: int|
            0 <= k < run(lines, buffer).0.len() ==> !is_blank(#[trigger] run(lines, buffer).0[k]),
    decreases lines.len(),
{
    if lines.len() > 0 {
        let rest = lines.drop_first();
        if lines[0] == sentinel() {
            if is_blank(buffer) {
                lemma_run_blocks_not_blank(rest, buffer);
                assert forall|k: int| 0 <= k < run(lines, buffer).0.len() implies !is_blank(
                    #[trigger] run(lines, buffer).0[k],
                ) by {
                    assert(run(lines, buffer).0[k] == run(rest, buffer).0[k]);
                }
            } else {
                lemma_run_blocks_not_blank(rest, Seq::<u8>::empty());
                let tail = run(rest, Seq::<u8>::empty());
                assert forall|k: int| 0 <= k < run(lines, buffer).0.len() implies !is_blank(
                    #[trigger] run(lines, buffer).0[k],
                ) by {
                    if k == 0 {
                        assert(run(lines, buffer).0[0] == buffer);
                    } else {
                        assert(run(lines, buffer).0[k] == tail.0[k - 1]);
                    }
                }
            }
        } else {
            let appended = appended_line(buffer, lines[0]);
            lemma_run_blocks_not_blank(rest, appended);
            assert forall|k: int| 0 <= k < run(lines, buffer).0.len() implies !is_blank(
                #[trigger] run(lines, buffer).0[k],
            ) by {
                assert(run(lines, buffer).0[k] == run(rest, appended).0[k]);
            }
        }
    }
}

/// No emitted block is empty or whitespace-only, however many consecutive or
/// leading delimiter lines the stream holds.
pub proof fn lemma_blocks_never_blank(lines: Seq<Seq<u8>>)
    ensures
        forall|k: int|
            0 <= k < blocks_of(lines).len() ==> !is_blank(#[trigger] blocks_of(lines)[k]),
{
    lemma_run_blocks_not_blank(lines, Seq::<u8>::empty());
}

/// The number of non-blank spans of a stream whose open span so far is
/// `span`: delimiter lines close a span, which counts when it is not blank,
/// and a last unterminated span counts as well.
pub open spec fn span_count(lines: Seq<Seq<u8>>, span: Seq<u8>) -> nat
    decreases lines.len(),
{
    if lines.len() == 0 {
        if is_blank(span) {
            0
        } else {
            1
        }
    } else if lines[0] == sentinel() {
        (if is_blank(span) {
            0nat
        } else {
            1nat
        }) + span_count(lines.drop_first(), Seq::<u8>::empty())
    } else {
        span_count(lines.drop_first(), appended_line(span, lines[0]))
    }
}

proof fn lemma_span_count_blank_equiv(lines: Seq<Seq<u8>>, a: Seq<u8>, b: Seq<u8>)
    requires
        is_blank(a) == is_blank(b),
    ensures
        span_count(lines, a) == span_count(lines, b),
    decreases lines.len(),
{
    if lines.len() > 0 {
        let rest = lines.drop_first();
        if lines[0] == sentinel() {
            lemma_span_count_blank_equiv(rest, Seq::<u8>::empty(), Seq::<u8>::empty());
        } else {
            lemma_blank_appended(a, lines[0]);
            lemma_blank_appended(b, lines[0]);
            lemma_span_count_blank_equiv(
                rest,
                appended_line(a, lines[0]),
                appended_line(b, lines[0]),
            );
        }
    }
}

proof fn lemma_run_count(lines: Seq<Seq<u8>>, buffer: Seq<u8>)
    ensures
        run(lines, buffer).0.len() + (if is_blank(run(lines, buffer).1) {
            0nat
        } else {
            1nat
        }) == span_count(lines, buffer),
    decreases lines.len(),
{
    if lines.len() > 0 {
        let rest = lines.drop_first();
        if lines[0] == sentinel() {
            if is_blank(buffer) {
                lemma_run_count(rest, buffer);
                lemma_span_count_blank_equiv(rest, buffer, Seq::<u8>::empty());
            } else {
                lemma_run_count(rest, Seq::<u8>::empty());
            }
        } else {
            lemma_run_count(rest, appended_line(buffer, lines[0]));
        }
    }
}

/// The number of emitted blocks equals the number of non-blank
/// inter-delimiter spans, the trailing unterminated span included.
pub proof fn lemma_block_count(lines: Seq<Seq<u8>>)
    ensures
        blocks_of(lines).len() == span_count(lines, Seq::<u8>::empty()),
{
    lemma_run_count(lines, Seq::<u8>::empty());
}

/// Decide whether a line is the delimiter `---`.
fn sentinel_line(line: &Vec<u8>) -> (found: bool)
    ensures
        found == (line@ == sentinel()),
{
    if line.len() != 3 {
        assert(line@ != sentinel());
        return false;
    }
    if line[0] == 45 && line[1] == 45 && line[2] == 45 {
        assert(line@ =~= sentinel());
        true
    } else {
        assert(line@ != sentinel());
        false
    }
}

/// Decide whether a text is blank.
fn blank_bytes(text: &Vec<u8>) -> (blank: bool)
    ensures
        blank == is_blank(text@),
{
    let mut i: usize = 0;
    while i < text.len()
        invariant
            i <= text.len(),
            forall|j: int| 0 <= j < i ==> is_space_byte(#[trigger] text@[j]),
        decreases text.len() - i,
    {
        if !crate::bytes::space_byte(text[i]) {
            return false;
        }
        i += 1;
    }
    true
}

/// Expand each horizontal tab of a line to four spaces.
fn expand_line(line: &Vec<u8>) -> (expanded: Vec<u8>)
    ensures
        expanded@ == expand_tabs(line@),
{
    let mut expanded: Vec<u8> = Vec::new();
    let mut i: usize = 0;
    proof {
        assert(line@.take(0) =~= Seq::<u8>::empty());
    }
    while i < line.len()
        invariant
            i <= line.len(),
            expanded@ == expand_tabs(line@.take(i as int)),
        decreases line.len() - i,
    {
        proof {
            assert(line@.take(i + 1).drop_last() =~= line@.take(i as int));
            assert(line@.take(i + 1).last() == line@[i as int]);
        }
        if line[i] == 9 {
            expanded.push(32);
            expanded.push(32);
            expanded.push(32);
            expanded.push(32);
            proof {
                assert(expanded@ =~= expand_tabs(line@.take(i as int)) + seq![32u8, 32, 32, 32]);
            }
        } else {
            expanded.push(line[i]);
        }
        i += 1;
    }
    proof {
        assert(line@.take(line@.len() as int) =~= line@);
    }
    expanded
}

/// The streaming reassembler: it owns the accumulating buffer between
/// delimiter lines.  Its view is the buffer's bytes.
pub struct Reassembler {
    buffer: Vec<u8>,
}

impl View for Reassembler {
    type V = Seq<u8>;

    closed spec fn view(&self) -> Seq<u8> {
        self.buffer@
    }
}

impl Reassembler {
    /// A reassembler with an empty buffer.
    pub fn new() -> (machine: Self)
        ensures
            machine@ == Seq::<u8>::empty(),
    {
        Reassembler { buffer: Vec::new() }
    }

    /// Consume one line of the stream.  A delimiter line emits the buffer as
    /// a block when it is not blank and is ignored otherwise; any other line
    /// is appended with tabs expanded and a newline added.  An emitted block
    /// is never blank.
    pub fn feed_line(&mut self, line: &Vec<u8>) -> (emitted: Option<Vec<u8>>)
        ensures
            line@ == sentinel() && is_blank(old(self)@) ==> emitted is None && final(self)@ == old(
                self,
            )@,
            line@ == sentinel() && !is_blank(old(self)@) ==> (emitted matches Some(block)
                && block@ == old(self)@) && final(self)@ == Seq::<u8>::empty(),
            line@ != sentinel() ==> emitted is None && final(self)@ == appended_line(
                old(self)@,
                line@,
            ),
            emitted matches Some(block) ==> !is_blank(block@),
    {
        if sentinel_line(line) {
            if blank_bytes(&self.buffer) {
                None
            } else {
                let block = self.buffer.split_off(0);
                proof {
                    assert(block@ =~= old(self)@);
                    assert(self.buffer@ =~= Seq::<u8>::empty());
                }
                Some(block)
            }
        } else {
            let expanded = expand_line(line);
            crate::bytes::append_all(&mut self.buffer, &expanded);
            self.buffer.push(10);
            proof {
                assert(self.buffer@ =~= appended_line(old(self)@, line@));
            }
            None
        }
    }

    /// End of a bounded stream: emit the remaining buffer as a final block
    /// when it is not blank.
    pub fn finish(self) -> (last: Option<Vec<u8>>)
        ensures
            is_blank(self@) ==> last is None,
            !is_blank(self@) ==> (last matches Some(block) && block@ == self@),
            last matches Some(block) ==> !is_blank(block@),
    {
        if blank_bytes(&self.buffer) {
            None
        } else {
            Some(self.buffer)
        }
    }
}

/// Reassemble a whole bounded stream of lines into its record blocks.
pub fn reassemble_all(lines: &Vec<Vec<u8>>) -> (blocks: Vec<Vec<u8>>)
    ensures
        blocks.deep_view() == blocks_of(lines.deep_view()),
{
    let ghost all = lines.deep_view();
    let ghost total = run(all, Seq::<u8>::empty());
    let mut machine = Reassembler::new();
    let mut blocks: Vec<Vec<u8>> = Vec::new();
    let mut i: usize = 0;
    proof {
        crate::bytes::lemma_deep_view_points(*lines);
        assert(all.skip(0) =~= all);
    }
    while i < lines.len()
        invariant
            i <= lines.len(),
            all == lines.deep_view(),
            all.len() == lines@.len(),
            total == run(all, Seq::<u8>::empty()),
            blocks.deep_view() + run(all.skip(i as int), machine@).0 == total.0,
            run(all.skip(i as int), machine@).1 == total.1,
            forall|j: int| 0 <= j < lines@.len() ==> all[j] == lines@[j]@,
        decreases lines.len() - i,
    {
        let ghost remaining = all.skip(i as int);
        let ghost buffer_before = machine@;
        let ghost blocks_before = blocks.deep_view();
        proof {
            assert(remaining[0] == all[i as int]);
            assert(remaining.drop_first() =~= all.skip(i + 1));
            assert(remaining.len() > 0);
        }
        let emitted = machine.feed_line(&lines[i]);
        match emitted {
            Some(block) => {
                proof {
                    assert(remaining[0] == sentinel());
                    assert(!is_blank(buffer_before));
                    assert(run(remaining, buffer_before).0 == seq![buffer_before] + run(
                        remaining.drop_first(),
                        Seq::<u8>::empty(),
                    ).0);
                }
                blocks.push(block);
                proof {
                    crate::bytes::lemma_deep_view_points(blocks);
                    assert(blocks.deep_view() =~= blocks_before.push(buffer_before));
                    assert(blocks_before.push(buffer_before) + run(
                        all.skip(i + 1),
                        Seq::<u8>::empty(),
                    ).0 =~= blocks_before + (seq![buffer_before] + run(
                        all.skip(i + 1),
                        Seq::<u8>::empty(),
                    ).0));
                }
            },
            None => {
                proof {
                    if remaining[0] == sentinel() {
                        assert(is_blank(buffer_before));
                        assert(run(remaining, buffer_before) == run(
                            remaining.drop_first(),
                            buffer_before,
                        ));
                    } else {
                        assert(run(remaining, buffer_before) == run(
                            remaining.drop_first(),
                            appended_line(buffer_before, remaining[0]),
                        ));
                    }
                }
            },
        }
        i += 1;
    }
    proof {
        assert(all.skip(all.len() as int) =~= Seq::<Seq<u8>>::empty());
    }
    let ghost blocks_before = blocks.deep_view();
    let last = machine.finish();
    match last {
        Some(block) => {
            blocks.push(block);
            proof {
                crate::bytes::lemma_deep_view_points(blocks);
                assert(blocks.deep_view() =~= blocks_before.push(total.1));
            }
        },
        None => {},
    }
    blocks
}

} // verus!
