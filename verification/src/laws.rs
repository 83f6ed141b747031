//! What holds of every log: which record a closed block yields, that lines
//! which say nothing change nothing, when a block is an error, and that
//! blocks come out in the order in which they close.

use crate::entry::{step_of, EntryView, Field, LogError, Slots, StepView};
use crate::line::{line_class, start_time};
use crate::log_file::{records, scan, Scan};
use crate::patterns::{is_end, line_assignment, line_id, start_text};
use crate::timestamp::Timestamp;
use vstd::prelude::*;

verus! {

/// The line opens a block, but its time-stamp text is no date and time.
pub open spec fn malformed_start(line: Seq<char>) -> bool {
    !is_end(line) && start_text(line) is Some && start_time(line) is None
}

/// The line neither closes a block nor stops the parser.
pub open spec fn quiet(line: Seq<char>) -> bool {
    !is_end(line) && !malformed_start(line)
}

/// The slots after a line that neither opens nor closes a block: first the
/// identifier, where the line carries one, then the assignment, where it
/// carries one.
pub open spec fn absorb(slots: Slots, line: Seq<char>) -> Slots {
    let with_id = match line_id(line) {
        Some(id) => Slots { id: Some(id), ..slots },
        None => slots,
    };
    match line_assignment(line) {
        Some((name, value)) => with_id.assign(name, value),
        None => with_id,
    }
}

/// The slots after a quiet line.
pub open spec fn advance(slots: Slots, line: Seq<char>) -> Slots {
    if start_text(line) is Some {
        Slots { timestamp: start_time(line), ..slots }
    } else {
        absorb(slots, line)
    }
}

/// Every line from `from` up to, not including, `to` is quiet.
pub open spec fn all_quiet(lines: Seq<Seq<char>>, from: int, to: int) -> bool {
    forall|i: int| from <= i < to ==> quiet(#[trigger] lines[i])
}

/// The slots after the quiet lines of `body`, read in order.
pub open spec fn collect(body: Seq<Seq<char>>, slots: Slots) -> Slots
    decreases body.len(),
{
    if body.len() == 0 {
        slots
    } else {
        advance(collect(body.drop_last(), slots), body.last())
    }
}

/// The value that the line assigns to `name`, if it assigns one.
pub open spec fn assigned(line: Seq<char>, name: Seq<char>) -> Option<Seq<char>> {
    match line_assignment(line) {
        Some((n, value)) => if n == name {
            Some(value)
        } else {
            None
        },
        None => None,
    }
}

/// The text that the line writes into a field, if it writes one. A line that
/// opens a block writes no text.
pub open spec fn text_written(line: Seq<char>, field: Field) -> Option<Seq<char>> {
    if start_text(line) is Some {
        None
    } else {
        match field {
            Field::Id => line_id(line),
            Field::MessageType => assigned(line, "message_type"@),
            Field::RemoteId => assigned(line, "remote_id"@),
            Field::Server => assigned(line, "server"@),
            Field::Timestamp => None,
        }
    }
}

/// The text that the last line of `body` to write into the field wrote.
pub open spec fn last_text(body: Seq<Seq<char>>, field: Field) -> Option<Seq<char>>
    decreases body.len(),
{
    if body.len() == 0 {
        None
    } else {
        match text_written(body.last(), field) {
            Some(value) => Some(value),
            None => last_text(body.drop_last(), field),
        }
    }
}

/// The time stamp of the last line of `body` that opens a block.
pub open spec fn last_time(body: Seq<Seq<char>>) -> Option<Timestamp>
    decreases body.len(),
{
    if body.len() == 0 {
        None
    } else {
        match start_time(body.last()) {
            Some(t) => Some(t),
            None => last_time(body.drop_last()),
        }
    }
}

/// The text in the slot of a field; the time stamp is no text.
pub open spec fn slot_text(slots: Slots, field: Field) -> Option<Seq<char>> {
    match field {
        Field::Id => slots.id,
        Field::MessageType => slots.message_type,
        Field::RemoteId => slots.remote_id,
        Field::Server => slots.server,
        Field::Timestamp => None,
    }
}

/// The line says nothing: it neither opens nor closes a block, carries no
/// identifier, and assigns to none of the three names that a record knows.
pub open spec fn unrecognized(line: Seq<char>) -> bool {
    &&& !is_end(line)
    &&& start_text(line) is None
    &&& line_id(line) is None
    &&& match line_assignment(line) {
        Some((name, value)) => name != "message_type"@ && name != "remote_id"@ && name
            != "server"@,
        None => true,
    }
}

/// A block: quiet lines, then one line that closes it.
pub open spec fn closed_block(block: Seq<Seq<char>>) -> bool {
    &&& block.len() > 0
    &&& all_quiet(block, 0, block.len() - 1)
    &&& is_end(block.last())
}

/// What a closed block yields.
pub open spec fn block_outcome(block: Seq<Seq<char>>) -> Result<EntryView, LogError> {
    collect(block.drop_last(), Slots::empty()).finish()
}

/// The lines of the blocks, one block after the other.
pub open spec fn join(blocks: Seq<Seq<Seq<char>>>) -> Seq<Seq<char>>
    decreases blocks.len(),
{
    if blocks.len() == 0 {
        Seq::empty()
    } else {
        blocks.first() + join(blocks.drop_first())
    }
}

/// Each line does one of three things to an open block: it closes it, it
/// stops the request with an error, or it is quiet and moves the slots on.
pub proof fn law_line_closes_stops_or_collects(slots: Slots, line: Seq<char>)
    ensures
        step_of(slots, line_class(line)) == if is_end(line) {
            StepView::Yield(slots.finish())
        } else if malformed_start(line) {
            StepView::Yield(Err(LogError::MalformedTimestamp))
        } else {
            StepView::Continue(advance(slots, line))
        },
{
}

/// A request that yields something has read at least one line, and never
/// reads past the last.
pub proof fn law_scan_moves_forward(lines: Seq<Seq<char>>, pos: int, slots: Slots)
    requires
        0 <= pos <= lines.len(),
    ensures
        pos <= scan(lines, pos, slots).pos <= lines.len(),
        scan(lines, pos, slots).result is Some ==> pos < scan(lines, pos, slots).pos,
        scan(lines, pos, slots).result is None ==> scan(lines, pos, slots).pos == lines.len(),
    decreases lines.len() - pos,
{
    if pos < lines.len() && !is_end(lines[pos]) && !malformed_start(lines[pos]) {
        law_scan_moves_forward(lines, pos + 1, advance(slots, lines[pos]));
    }
}

/// Reading quiet lines only collects: a request that starts before them
/// yields what a request would that starts after them with their
/// assignments in the slots.
pub proof fn law_quiet_lines_are_collected(
    lines: Seq<Seq<char>>,
    pos: int,
    end: int,
    slots: Slots,
)
    requires
        0 <= pos <= end <= lines.len(),
        all_quiet(lines, pos, end),
    ensures
        scan(lines, pos, slots) == scan(lines, end, collect(lines.subrange(pos, end), slots)),
    decreases end - pos,
{
    let body = lines.subrange(pos, end);
    if pos < end {
        law_quiet_lines_are_collected(lines, pos, end - 1, slots);
        assert(body.drop_last() =~= lines.subrange(pos, end - 1));
        assert(body.last() == lines[end - 1]);
        assert(quiet(lines[end - 1]));
    }
}

/// A block that closes yields exactly one outcome, made of what its lines
/// collected, and the cursor then stands behind the closing line.
pub proof fn law_closed_block_yields_its_outcome(lines: Seq<Seq<char>>, pos: int, end: int)
    requires
        0 <= pos <= end < lines.len(),
        all_quiet(lines, pos, end),
        is_end(lines[end]),
    ensures
        scan(lines, pos, Slots::empty()) == (Scan {
            result: Some(collect(lines.subrange(pos, end), Slots::empty()).finish()),
            pos: end + 1,
        }),
{
    law_quiet_lines_are_collected(lines, pos, end, Slots::empty());
}

/// The three names that an assignment can set are different names.
proof fn lemma_names_differ()
    ensures
        "message_type"@ != "remote_id"@,
        "message_type"@ != "server"@,
        "remote_id"@ != "server"@,
{
    reveal_strlit("message_type");
    reveal_strlit("remote_id");
    reveal_strlit("server");
    assert("message_type"@.len() == 12);
    assert("remote_id"@.len() == 9);
    assert("server"@.len() == 6);
}

/// One quiet line replaces the text of a field if it writes into it, and
/// leaves it otherwise.
proof fn lemma_advance_text(slots: Slots, line: Seq<char>, field: Field)
    ensures
        slot_text(advance(slots, line), field) == match text_written(line, field) {
            Some(value) => Some(value),
            None => slot_text(slots, field),
        },
{
    lemma_names_differ();
}

/// Among quiet lines the last write wins, from whatever slots they start.
proof fn lemma_collect_last(body: Seq<Seq<char>>, slots: Slots, field: Field)
    requires
        all_quiet(body, 0, body.len() as int),
    ensures
        slot_text(collect(body, slots), field) == match last_text(body, field) {
            Some(value) => Some(value),
            None => slot_text(slots, field),
        },
        collect(body, slots).timestamp == match last_time(body) {
            Some(t) => Some(t),
            None => slots.timestamp,
        },
    decreases body.len(),
{
    if body.len() > 0 {
        let front = body.drop_last();
        assert forall|i: int| 0 <= i < front.len() implies quiet(#[trigger] front[i]) by {
            assert(front[i] == body[i]);
        }
        lemma_collect_last(front, slots, field);
        lemma_advance_text(collect(front, slots), body.last(), field);
        assert(quiet(body[body.len() - 1]));
    }
}

/// Within a block the last write wins: each field of what the quiet lines
/// collected is the text of the last line that wrote into it, and the time
/// stamp is that of the last line that opened the block; a field that no
/// line wrote into is unset.
pub proof fn law_last_write_wins(body: Seq<Seq<char>>)
    requires
        all_quiet(body, 0, body.len() as int),
    ensures
        collect(body, Slots::empty()) == (Slots {
            id: last_text(body, Field::Id),
            message_type: last_text(body, Field::MessageType),
            remote_id: last_text(body, Field::RemoteId),
            server: last_text(body, Field::Server),
            timestamp: last_time(body),
        }),
{
    lemma_collect_last(body, Slots::empty(), Field::Id);
    lemma_collect_last(body, Slots::empty(), Field::MessageType);
    lemma_collect_last(body, Slots::empty(), Field::RemoteId);
    lemma_collect_last(body, Slots::empty(), Field::Server);
}

/// A well-formed block yields one record: each text field holds the last
/// value written into it, and the time stamp is the one that the block
/// opened with last.
pub proof fn law_well_formed_block_yields_record(lines: Seq<Seq<char>>, pos: int, end: int)
    requires
        0 <= pos <= end < lines.len(),
        all_quiet(lines, pos, end),
        is_end(lines[end]),
        last_text(lines.subrange(pos, end), Field::Id) is Some,
        last_text(lines.subrange(pos, end), Field::MessageType) is Some,
        last_text(lines.subrange(pos, end), Field::RemoteId) is Some,
        last_text(lines.subrange(pos, end), Field::Server) is Some,
        last_time(lines.subrange(pos, end)) is Some,
    ensures
        scan(lines, pos, Slots::empty()) == (Scan {
            result: Some(
                Ok(
                    EntryView {
                        id: last_text(lines.subrange(pos, end), Field::Id).unwrap(),
                        message_type: last_text(
                            lines.subrange(pos, end),
                            Field::MessageType,
                        ).unwrap(),
                        remote_id: last_text(lines.subrange(pos, end), Field::RemoteId).unwrap(),
                        server: last_text(lines.subrange(pos, end), Field::Server).unwrap(),
                        timestamp: last_time(lines.subrange(pos, end)).unwrap(),
                    },
                ),
            ),
            pos: end + 1,
        }),
{
    let body = lines.subrange(pos, end);
    law_closed_block_yields_its_outcome(lines, pos, end);
    assert forall|i: int| 0 <= i < body.len() implies quiet(#[trigger] body[i]) by {
        assert(body[i] == lines[pos + i]);
    }
    law_last_write_wins(body);
}

/// A block that closes with a field that no line wrote into yields no
/// record: it yields the error that lists the unset fields, that one among
/// them.
pub proof fn law_unset_field_is_error(lines: Seq<Seq<char>>, pos: int, end: int, field: Field)
    requires
        0 <= pos <= end < lines.len(),
        all_quiet(lines, pos, end),
        is_end(lines[end]),
        field == Field::Timestamp ==> last_time(lines.subrange(pos, end)) is None,
        field != Field::Timestamp ==> last_text(lines.subrange(pos, end), field) is None,
    ensures
        scan(lines, pos, Slots::empty()).pos == end + 1,
        scan(lines, pos, Slots::empty()).result matches Some(Err(LogError::Incomplete(missing)))
            && missing.has(field) && missing == collect(
            lines.subrange(pos, end),
            Slots::empty(),
        ).missing(),
{
    let body = lines.subrange(pos, end);
    law_closed_block_yields_its_outcome(lines, pos, end);
    assert forall|i: int| 0 <= i < body.len() implies quiet(#[trigger] body[i]) by {
        assert(body[i] == lines[pos + i]);
    }
    law_last_write_wins(body);
}

/// A line that opens a block with a malformed time stamp stops the request
/// with that error, whatever the lines before it collected, and no record
/// is made of them.
pub proof fn law_malformed_start_is_error(
    lines: Seq<Seq<char>>,
    pos: int,
    at: int,
    slots: Slots,
)
    requires
        0 <= pos <= at < lines.len(),
        all_quiet(lines, pos, at),
        malformed_start(lines[at]),
    ensures
        scan(lines, pos, slots) == (Scan {
            result: Some(Err(LogError::MalformedTimestamp)),
            pos: at + 1,
        }),
{
    law_quiet_lines_are_collected(lines, pos, at, slots);
}

/// Lines that run out within a block yield nothing: no record and no error.
pub proof fn law_open_block_is_dropped(lines: Seq<Seq<char>>, pos: int, slots: Slots)
    requires
        0 <= pos <= lines.len(),
        all_quiet(lines, pos, lines.len() as int),
    ensures
        scan(lines, pos, slots) == (Scan { result: None, pos: lines.len() as int }),
{
    law_quiet_lines_are_collected(lines, pos, lines.len() as int, slots);
}

/// Behind a removed line, a request reads what it read one line further on
/// before.
proof fn lemma_scan_behind_removed(lines: Seq<Seq<char>>, at: int, pos: int, slots: Slots)
    requires
        0 <= at <= pos < lines.len(),
    ensures
        scan(lines.remove(at), pos, slots).result == scan(lines, pos + 1, slots).result,
        scan(lines.remove(at), pos, slots).pos == scan(lines, pos + 1, slots).pos - 1,
    decreases lines.len() - pos,
{
    let short = lines.remove(at);
    if pos < short.len() {
        assert(short[pos] == lines[pos + 1]);
        if quiet(short[pos]) {
            lemma_scan_behind_removed(lines, at, pos + 1, advance(slots, short[pos]));
        }
    }
}

/// A line that says nothing is ignored: with the line removed, wherever it
/// stood, a request yields the same, and the cursor ends on the same line.
pub proof fn law_unrecognized_line_is_ignored(
    lines: Seq<Seq<char>>,
    pos: int,
    at: int,
    slots: Slots,
)
    requires
        0 <= pos <= at < lines.len(),
        unrecognized(lines[at]),
    ensures
        scan(lines.remove(at), pos, slots).result == scan(lines, pos, slots).result,
        scan(lines.remove(at), pos, slots).pos == if scan(lines, pos, slots).pos <= at {
            scan(lines, pos, slots).pos
        } else {
            scan(lines, pos, slots).pos - 1
        },
    decreases at - pos,
{
    let short = lines.remove(at);
    if pos == at {
        assert(advance(slots, lines[at]) == slots);
        law_scan_moves_forward(lines, at + 1, slots);
        lemma_scan_behind_removed(lines, at, at, slots);
    } else {
        assert(short[pos] == lines[pos]);
        if quiet(lines[pos]) {
            law_unrecognized_line_is_ignored(lines, pos + 1, at, advance(slots, lines[pos]));
        }
    }
}

/// Behind a prefix, a request reads what it would read without the prefix.
proof fn lemma_scan_behind_prefix(
    prefix: Seq<Seq<char>>,
    rest: Seq<Seq<char>>,
    pos: int,
    slots: Slots,
)
    requires
        0 <= pos <= rest.len(),
    ensures
        scan(prefix + rest, prefix.len() + pos, slots).result == scan(rest, pos, slots).result,
        scan(prefix + rest, prefix.len() + pos, slots).pos == prefix.len() + scan(
            rest,
            pos,
            slots,
        ).pos,
    decreases rest.len() - pos,
{
    let all = prefix + rest;
    if pos < rest.len() {
        assert(all[prefix.len() + pos] == rest[pos]);
        if quiet(rest[pos]) {
            lemma_scan_behind_prefix(prefix, rest, pos + 1, advance(slots, rest[pos]));
        }
    }
}

/// Behind a prefix, the requests yield what they would yield without it.
proof fn lemma_records_behind_prefix(prefix: Seq<Seq<char>>, rest: Seq<Seq<char>>, pos: int)
    requires
        0 <= pos <= rest.len(),
    ensures
        records(prefix + rest, prefix.len() + pos) == records(rest, pos),
    decreases rest.len() - pos,
{
    lemma_scan_behind_prefix(prefix, rest, pos, Slots::empty());
    law_scan_moves_forward(rest, pos, Slots::empty());
    let s = scan(rest, pos, Slots::empty());
    if s.result matches Some(Ok(entry)) {
        lemma_records_behind_prefix(prefix, rest, s.pos);
    }
}

/// Behind a removed line, the requests yield what they yielded one line
/// further on before.
proof fn lemma_records_behind_removed(lines: Seq<Seq<char>>, at: int, pos: int)
    requires
        0 <= at <= pos < lines.len(),
    ensures
        records(lines.remove(at), pos) == records(lines, pos + 1),
    decreases lines.len() - pos,
{
    lemma_scan_behind_removed(lines, at, pos, Slots::empty());
    law_scan_moves_forward(lines, pos + 1, Slots::empty());
    let s = scan(lines, pos + 1, Slots::empty());
    if s.result matches Some(Ok(entry)) {
        lemma_records_behind_removed(lines, at, s.pos - 1);
    }
}

/// A line that says nothing changes neither the records nor their order:
/// with the line removed, wherever it stood, within a block or between two,
/// the requests yield the same, one after the other.
pub proof fn law_unrecognized_line_keeps_records(lines: Seq<Seq<char>>, pos: int, at: int)
    requires
        0 <= pos <= at < lines.len(),
        unrecognized(lines[at]),
    ensures
        records(lines.remove(at), pos) == records(lines, pos),
    decreases at - pos,
{
    law_unrecognized_line_is_ignored(lines, pos, at, Slots::empty());
    law_scan_moves_forward(lines, pos, Slots::empty());
    let s = scan(lines, pos, Slots::empty());
    if s.result matches Some(Ok(entry)) {
        if s.pos <= at {
            law_unrecognized_line_keeps_records(lines, s.pos, at);
        } else {
            if pos == at {
                law_scan_moves_forward(lines, at + 1, Slots::empty());
            }
            lemma_records_behind_removed(lines, at, s.pos - 1);
        }
    }
}

/// A closed block that yields a record, with any lines behind it: the
/// requests yield that record first, then what the lines behind it yield.
pub proof fn law_first_block_comes_first(block: Seq<Seq<char>>, rest: Seq<Seq<char>>)
    requires
        closed_block(block),
        block_outcome(block) is Ok,
    ensures
        records(block + rest, 0) == seq![block_outcome(block)] + records(rest, 0),
{
    let all = block + rest;
    let end = block.len() - 1;
    assert forall|i: int| 0 <= i < end implies quiet(#[trigger] all[i]) by {
        assert(all[i] == block[i]);
    }
    assert(all[end] == block.last());
    assert(all.subrange(0, end) =~= block.drop_last());
    law_closed_block_yields_its_outcome(all, 0, end);
    lemma_records_behind_prefix(block, rest, 0);
}

/// Blocks come out in the order in which they close: any number of closed
/// blocks that each yield a record, one after the other, followed by
/// quiet lines of a block that never closes, yield one record for each
/// block, in the order of the blocks, and nothing for the open block.
pub proof fn law_blocks_in_order(blocks: Seq<Seq<Seq<char>>>, tail: Seq<Seq<char>>)
    requires
        forall|k: int|
            0 <= k < blocks.len() ==> closed_block(#[trigger] blocks[k]) && block_outcome(
                blocks[k],
            ) is Ok,
        all_quiet(tail, 0, tail.len() as int),
    ensures
        records(join(blocks) + tail, 0).len() == blocks.len(),
        forall|k: int|
            0 <= k < blocks.len() ==> #[trigger] records(join(blocks) + tail, 0)[k]
                == block_outcome(blocks[k]),
    decreases blocks.len(),
{
    if blocks.len() == 0 {
        assert(join(blocks) + tail =~= tail);
        law_open_block_is_dropped(tail, 0, Slots::empty());
    } else {
        let first = blocks.first();
        let others = blocks.drop_first();
        assert forall|k: int| 0 <= k < others.len() implies closed_block(#[trigger] others[k])
            && block_outcome(others[k]) is Ok by {
            assert(others[k] == blocks[k + 1]);
        }
        law_blocks_in_order(others, tail);
        assert(join(blocks) + tail =~= first + (join(others) + tail));
        law_first_block_comes_first(first, join(others) + tail);
        assert forall|k: int| 0 <= k < blocks.len() implies #[trigger] records(
            join(blocks) + tail,
            0,
        )[k] == block_outcome(blocks[k]) by {
            if k > 0 {
                assert(blocks[k] == others[k - 1]);
            }
        }
    }
}

} // verus!
