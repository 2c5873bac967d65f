//! A channel-fed logger and the rule by which its log files rotate.
use std::sync::mpsc::Receiver;
use vstd::prelude::*;

verus! {

#[verifier::external_type_specification]
#[verifier::external_body]
#[verifier::reject_recursive_types(T)]
pub struct ExReceiver<T>(Receiver<T>);

/// The size, in bytes, at which a log file is closed and a new one started.
pub const MAX_FILE_SIZE: u64 = 1_000_000_000;

/// Receives the messages to write to the log.
pub struct Logger {
    rx: Receiver<String>,
}

impl Logger {
    /// A logger reading from `rx`.
    pub fn new(rx: Receiver<String>) -> (r: Self)
        ensures
            r.receiver() == rx,
    {
        Self { rx }
    }

    pub closed spec fn receiver(&self) -> Receiver<String> {
        self.rx
    }

    /// The channel the logger reads from.
    pub fn messages(&self) -> (r: &Receiver<String>)
        ensures
            *r == self.receiver(),
    {
        &self.rx
    }
}

/// What writing one message does to the current log file.
pub struct WritePlan {
    /// Whether a new file is started before the message is written.
    pub rotate: bool,
    /// The size of the current file after the message is written.
    pub size_after: u64,
}

/// The size of the current file after a write of `len` bytes to a file of
/// `size` bytes: a full file (at least `MAX_FILE_SIZE`) is replaced by an
/// empty one first.
pub open spec fn size_after_write(size: nat, len: nat) -> nat {
    if size >= MAX_FILE_SIZE {
        len
    } else {
        size + len
    }
}

/// Plans the write of a `len`-byte message to a log file that holds `size`
/// bytes.
pub fn plan_write(size: u64, len: usize) -> (r: WritePlan)
    requires
        size_after_write(size as nat, len as nat) <= u64::MAX,
    ensures
        r.rotate == (size >= MAX_FILE_SIZE),
        r.size_after == size_after_write(size as nat, len as nat),
{
    if size >= MAX_FILE_SIZE {
        WritePlan { rotate: true, size_after: len as u64 }
    } else {
        WritePlan { rotate: false, size_after: size + len as u64 }
    }
}

/// A log file holds at least the message just written to it, and exceeds
/// `MAX_FILE_SIZE` by less than that message's length.
pub proof fn lemma_file_size_bounded(size: nat, len: nat)
    ensures
        len <= size_after_write(size, len) < MAX_FILE_SIZE + len,
{
}

/// The total of a sequence of lengths.
pub open spec fn total(lens: Seq<nat>) -> nat
    decreases lens.len(),
{
    if lens.len() == 0 {
        0
    } else {
        total(lens.drop_last()) + lens.last()
    }
}

/// The log files after messages of lengths `lens` are written in order to a
/// fresh log, each file given as the lengths of the messages it holds, the
/// current file last: a message goes to a new file when the current one
/// holds at least `MAX_FILE_SIZE` bytes, else to the current one.
pub open spec fn files_after(lens: Seq<nat>) -> Seq<Seq<nat>>
    decreases lens.len(),
{
    if lens.len() == 0 {
        seq![Seq::<nat>::empty()]
    } else {
        let files = files_after(lens.drop_last());
        let current = files.last();
        if total(current) >= MAX_FILE_SIZE {
            files.push(seq![lens.last()])
        } else {
            files.update(files.len() - 1, current.push(lens.last()))
        }
    }
}

/// The size counter after messages of lengths `lens` are written to a fresh
/// log, each write planned as `plan_write` plans it.
pub open spec fn counter_after(lens: Seq<nat>) -> nat
    decreases lens.len(),
{
    if lens.len() == 0 {
        0
    } else {
        size_after_write(counter_after(lens.drop_last()), lens.last())
    }
}

/// Across any sequence of writes to a fresh log, the size counter equals the
/// number of bytes in the current file, every earlier file was closed only
/// once it held at least `MAX_FILE_SIZE` bytes, and no message is lost.
pub proof fn lemma_counter_tracks_current_file(lens: Seq<nat>)
    ensures
        files_after(lens).len() >= 1,
        counter_after(lens) == total(files_after(lens).last()),
        forall|i: int|
            0 <= i < files_after(lens).len() - 1 ==> total(#[trigger] files_after(lens)[i])
                >= MAX_FILE_SIZE,
        files_total(files_after(lens)) == total(lens),
    decreases lens.len(),
{
    if lens.len() == 0 {
        let files = seq![Seq::<nat>::empty()];
        assert(files.drop_last() =~= Seq::<Seq<nat>>::empty());
        assert(files_total(files) == 0) by {
            reveal_with_fuel(files_total, 2);
            reveal_with_fuel(total, 1);
        }
    } else {
        let prev = lens.drop_last();
        lemma_counter_tracks_current_file(prev);
        let files = files_after(prev);
        let current = files.last();
        let x = lens.last();
        let next = files_after(lens);
        if total(current) >= MAX_FILE_SIZE {
            assert(seq![x].drop_last() =~= Seq::<nat>::empty());
            assert(total(seq![x]) == x) by {
                reveal_with_fuel(total, 2);
            }
            assert(next.last() == seq![x]);
            assert(next.drop_last() =~= files);
            assert(files_total(next) == files_total(files) + x);
            assert forall|i: int| 0 <= i < next.len() - 1 implies total(#[trigger] next[i])
                >= MAX_FILE_SIZE by {
                assert(next[i] == files[i]);
            }
        } else {
            assert(current.push(x).drop_last() =~= current);
            assert(total(current.push(x)) == total(current) + x);
            assert(next.last() == current.push(x));
            assert forall|i: int| 0 <= i < next.len() - 1 implies total(#[trigger] next[i])
                >= MAX_FILE_SIZE by {
                assert(next[i] == files[i]);
            }
            assert(next.drop_last() =~= files.drop_last());
            assert(files_total(next) == files_total(files) + x) by {
                assert(files_total(files) == files_total(files.drop_last()) + total(current));
            }
        }
    }
}

/// The number of bytes in all of `files`.
pub open spec fn files_total(files: Seq<Seq<nat>>) -> nat
    decreases files.len(),
{
    if files.len() == 0 {
        0
    } else {
        files_total(files.drop_last()) + total(files.last())
    }
}

} // verus!
