//! The text that is appended to the event file: one line for each event.

use crate::exporter::event::LogEvent;
use crate::exporter::rotation::{
    fits, law_a_write_loses_only_the_oldest, law_files_stay_within_the_limit, FileContents,
};
use vstd::prelude::*;
use vstd::utf8::encode_utf8;

verus! {

/// The lines of the events, each followed by a line feed.
pub open spec fn lines_text(batch: Seq<LogEvent>) -> Seq<char>
    decreases batch.len(),
{
    if batch.len() == 0 {
        Seq::empty()
    } else {
        lines_text(batch.drop_last()) + batch.last().line@ + seq!['\n']
    }
}

/// Renders a batch for the event file.
pub fn render_lines(batch: &[LogEvent]) -> (text: String)
    ensures
        text@ == lines_text(batch@),
{
    let mut text = String::new();
    let mut i: usize = 0;
    assert(batch@.take(0) =~= Seq::empty());
    while i < batch.len()
        invariant
            i <= batch.len(),
            text@ == lines_text(batch@.take(i as int)),
        decreases batch.len() - i,
    {
        text.append(batch[i].line.as_str());
        text.append("\n");
        proof {
            reveal_strlit("\n");
            assert(batch@.take(i + 1).drop_last() =~= batch@.take(i as int));
            assert("\n"@ =~= seq!['\n']);
        }
        i = i + 1;
    }
    assert(batch@.take(batch.len() as int) =~= batch@);
    text
}

/// Number of bytes that a text takes in the event file.
pub fn pending_bytes(text: &str) -> (bytes: usize)
    ensures
        bytes == encode_utf8(text@).len(),
{
    text.as_bytes().len()
}

/// What a reader makes of a text line by line: the complete lines, and the start of one that has no
/// line feed yet.
pub open spec fn read_lines(text: Seq<char>) -> (Seq<Seq<char>>, Seq<char>)
    decreases text.len(),
{
    if text.len() == 0 {
        (Seq::empty(), Seq::empty())
    } else {
        let (lines, rest) = read_lines(text.drop_last());
        if text.last() == '\n' {
            (lines.push(rest), Seq::empty())
        } else {
            (lines, rest.push(text.last()))
        }
    }
}

/// A text without line feed goes on the line that is still open.
proof fn lemma_read_lines_append(text: Seq<char>, more: Seq<char>)
    requires
        !more.contains('\n'),
    ensures
        read_lines(text + more) == (read_lines(text).0, read_lines(text).1 + more),
    decreases more.len(),
{
    if more.len() == 0 {
        assert(text + more =~= text);
        assert(read_lines(text).1 + more =~= read_lines(text).1);
    } else {
        assert(!more.drop_last().contains('\n')) by {
            assert forall|i: int| 0 <= i < more.drop_last().len() implies more.drop_last()[i]
                != '\n' by {
                assert(more.contains(more[i]));
            }
        }
        lemma_read_lines_append(text, more.drop_last());
        assert((text + more).drop_last() =~= text + more.drop_last());
        assert(more.contains(more.last()));
        assert(read_lines(text).1 + more =~= (read_lines(text).1 + more.drop_last()).push(
            more.last(),
        ));
    }
}

/// Reading the event file line by line gives the events' lines back, one for each event and in
/// their order, where no line holds a line feed of its own.
pub proof fn law_one_line_per_event(batch: Seq<LogEvent>)
    requires
        forall|i: int| 0 <= i < batch.len() ==> !(#[trigger] batch[i]).line@.contains('\n'),
    ensures
        read_lines(lines_text(batch)) == (
            batch.map_values(|event: LogEvent| event.line@),
            Seq::<char>::empty(),
        ),
    decreases batch.len(),
{
    let lines = batch.map_values(|event: LogEvent| event.line@);
    if batch.len() == 0 {
        assert(lines =~= Seq::empty());
    } else {
        let prior = batch.drop_last();
        law_one_line_per_event(prior);
        let before = lines_text(prior);
        let line = batch.last().line@;
        lemma_read_lines_append(before, line);
        assert(Seq::<char>::empty() + line =~= line);
        let text = lines_text(batch);
        assert(text.drop_last() =~= before + line);
        assert(lines =~= prior.map_values(|event: LogEvent| event.line@).push(line));
    }
}

/// The bytes that a batch takes in the event file.
pub open spec fn batch_bytes(batch: Seq<LogEvent>) -> Seq<u8> {
    encode_utf8(lines_text(batch))
}

/// The bytes of those batches that are not refused, one after the other.
pub open spec fn accepted_bytes(size_limit: nat, batches: Seq<Seq<LogEvent>>) -> Seq<u8>
    decreases batches.len(),
{
    if batches.len() == 0 {
        Seq::empty()
    } else {
        let before = accepted_bytes(size_limit, batches.drop_last());
        let bytes = batch_bytes(batches.last());
        if fits(size_limit, bytes.len()) {
            before + bytes
        } else {
            before
        }
    }
}

/// What the files hold after batches were written one after the other.
pub open spec fn files_after(
    files: FileContents,
    size_limit: nat,
    batches: Seq<Seq<LogEvent>>,
) -> FileContents
    decreases batches.len(),
{
    if batches.len() == 0 {
        files
    } else {
        files_after(files, size_limit, batches.drop_last()).written(
            size_limit,
            batch_bytes(batches.last()),
        )
    }
}

/// However many batches are written, only the oldest history is lost: the rotated file followed by
/// the event file is the end of what they held at first followed by all batches that were not
/// refused, with nothing missing in between. A batch that was not refused stands whole at the end of
/// the event file.
pub proof fn law_files_hold_the_latest_history(
    files: FileContents,
    size_limit: nat,
    batches: Seq<Seq<LogEvent>>,
)
    ensures
        files_after(files, size_limit, batches).history().is_suffix_of(
            files.history() + accepted_bytes(size_limit, batches),
        ),
        batches.len() > 0 && fits(size_limit, batch_bytes(batches.last()).len()) ==> batch_bytes(
            batches.last(),
        ).is_suffix_of(files_after(files, size_limit, batches).current),
    decreases batches.len(),
{
    if batches.len() == 0 {
        assert(files.history() + accepted_bytes(size_limit, batches) =~= files.history());
    } else {
        let prior = batches.drop_last();
        law_files_hold_the_latest_history(files, size_limit, prior);
        let before = files_after(files, size_limit, prior);
        let text = batch_bytes(batches.last());
        if fits(size_limit, text.len()) {
            law_a_write_loses_only_the_oldest(before, size_limit, text);
            let earlier = files.history() + accepted_bytes(size_limit, prior);
            assert(files.history() + accepted_bytes(size_limit, batches) =~= earlier + text);
            lemma_suffix_extended(before.history(), earlier, text);
            lemma_suffix_of_suffix(
                files_after(files, size_limit, batches).history(),
                before.history() + text,
                earlier + text,
            );
        }
    }
}

/// A write of a batch of any size leaves the two files within the limit together, unless it is
/// refused and they were over the limit before. Files that are within the limit at first stay within
/// it, however many batches are written.
pub proof fn law_files_never_exceed_the_limit(
    files: FileContents,
    size_limit: nat,
    batches: Seq<Seq<LogEvent>>,
)
    ensures
        ({
            let total = files_after(files, size_limit, batches).sizes().total();
            &&& batches.len() > 0 && fits(size_limit, batch_bytes(batches.last()).len()) ==> total
                <= size_limit
            &&& files.sizes().total() <= size_limit ==> total <= size_limit
        }),
    decreases batches.len(),
{
    if batches.len() > 0 {
        let prior = batches.drop_last();
        law_files_never_exceed_the_limit(files, size_limit, prior);
        let before = files_after(files, size_limit, prior);
        let text = batch_bytes(batches.last());
        if fits(size_limit, text.len()) {
            law_a_write_loses_only_the_oldest(before, size_limit, text);
            law_files_stay_within_the_limit(before.sizes(), size_limit, text.len());
        }
    }
}

/// The end of a sequence stays its end when both are extended alike.
proof fn lemma_suffix_extended(end: Seq<u8>, whole: Seq<u8>, more: Seq<u8>)
    requires
        end.is_suffix_of(whole),
    ensures
        (end + more).is_suffix_of(whole + more),
{
    let start = whole.len() - end.len();
    assert forall|i: int| 0 <= i < end.len() implies end[i] == whole[start + i] by {
        assert(whole.subrange(start, whole.len() as int)[i] == whole[start + i]);
    }
    assert(end + more =~= (whole + more).subrange(start, (whole + more).len() as int));
}

/// The end of an end is an end.
proof fn lemma_suffix_of_suffix(inner: Seq<u8>, end: Seq<u8>, whole: Seq<u8>)
    requires
        inner.is_suffix_of(end),
        end.is_suffix_of(whole),
    ensures
        inner.is_suffix_of(whole),
{
    let skipped = end.len() - inner.len();
    let start = whole.len() - end.len();
    assert(end.subrange(skipped, end.len() as int) =~= whole.subrange(
        start + skipped,
        whole.len() as int,
    )) by {
        assert forall|i: int| 0 <= i < end.len() implies end[i] == whole[start + i] by {
            assert(whole.subrange(start, whole.len() as int)[i] == whole[start + i]);
        }
    }
}

/// A batch with one event more has that event's line more, whatever it holds, and an empty batch has
/// no text.
pub proof fn law_each_event_adds_its_line(batch: Seq<LogEvent>, event: LogEvent)
    ensures
        lines_text(Seq::empty()) == Seq::<char>::empty(),
        lines_text(batch.push(event)) == lines_text(batch) + event.line@ + seq!['\n'],
{
    assert(batch.push(event).drop_last() =~= batch);
}

} // verus!
