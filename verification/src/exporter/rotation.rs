//! When the event file is rotated.
//!
//! Events are appended to one file. Before an append that would take it over its share of the size
//! limit, the file is moved into the slot of the rotated file. Each of the two files may take up to
//! [`PER_FILE_PERCENT`] percent of the limit. A batch that is larger than that starts a new event
//! file, and the rotated file stays only if there is still room for it within the limit. A batch
//! that is larger than the limit itself is refused.

use crate::constant::PER_FILE_PERCENT;
use vstd::prelude::*;

verus! {

/// The size that each of the two event files may have.
pub open spec fn per_file_limit(size_limit: nat) -> nat {
    size_limit * PER_FILE_PERCENT as nat / 100
}

/// What to do before an append, in this order.
#[derive(Clone, Copy, Debug, PartialEq, Eq, Structural)]
pub struct RotationPlan {
    /// Remove the rotated file, to make room for the event file.
    pub remove_rotated: bool,
    /// Move the event file into the slot of the rotated file.
    pub rename_current: bool,
    /// Remove the rotated file, because it is over its share, or because the two files would be over
    /// the limit together.
    pub remove_oversized: bool,
}

/// The sizes of the event file and of the rotated file; a missing file has size zero.
pub struct FileSizes {
    pub current: nat,
    pub rotated: nat,
}

impl FileSizes {
    /// The sizes once the first two parts of a plan are done.
    pub open spec fn moved(self, plan: RotationPlan) -> FileSizes {
        let room = FileSizes {
            rotated: if plan.remove_rotated {
                0
            } else {
                self.rotated
            },
            ..self
        };
        if plan.rename_current {
            FileSizes { current: 0, rotated: room.current }
        } else {
            room
        }
    }

    /// The sizes once a plan is done.
    pub open spec fn after(self, plan: RotationPlan) -> FileSizes {
        let moved = self.moved(plan);
        FileSizes {
            rotated: if plan.remove_oversized {
                0
            } else {
                moved.rotated
            },
            ..moved
        }
    }

    /// The sizes after an append of `pending` bytes.
    pub open spec fn appended(self, pending: nat) -> FileSizes {
        FileSizes { current: self.current + pending, ..self }
    }

    /// The size of both files together.
    pub open spec fn total(self) -> nat {
        self.current + self.rotated
    }

    /// An append of `pending` bytes would take the event file over its share.
    pub open spec fn overflows(self, size_limit: nat, pending: nat) -> bool {
        self.current + pending > per_file_limit(size_limit)
    }
}

/// What the event file and the rotated file hold; a missing file holds nothing.
pub struct FileContents {
    pub current: Seq<u8>,
    pub rotated: Seq<u8>,
}

impl FileContents {
    /// The sizes of the files.
    pub open spec fn sizes(self) -> FileSizes {
        FileSizes { current: self.current.len(), rotated: self.rotated.len() }
    }

    /// The contents once a plan is done.
    pub open spec fn after(self, plan: RotationPlan) -> FileContents {
        let slot = if plan.rename_current {
            self.current
        } else if plan.remove_rotated {
            Seq::empty()
        } else {
            self.rotated
        };
        FileContents {
            current: if plan.rename_current {
                Seq::empty()
            } else {
                self.current
            },
            rotated: if plan.remove_oversized {
                Seq::empty()
            } else {
                slot
            },
        }
    }

    /// The contents after a write of `text`: first what its plan asks for, then the append. A text
    /// that is refused leaves the files as they are.
    pub open spec fn written(self, size_limit: nat, text: Seq<u8>) -> FileContents {
        if fits(size_limit, text.len()) {
            let rotated = self.after(rotation_plan(self.sizes(), size_limit, text.len()));
            FileContents { current: rotated.current + text, ..rotated }
        } else {
            self
        }
    }

    /// Both files one after the other, the rotated one first: the history that is kept.
    pub open spec fn history(self) -> Seq<u8> {
        self.rotated + self.current
    }
}

/// Whether `pending` bytes can be appended at all.
pub open spec fn fits(size_limit: nat, pending: nat) -> bool {
    pending <= size_limit
}

/// The plan before an append of `pending` bytes. If the append would take the event file over its
/// share, an existing rotated file is removed and a non-empty event file is moved into its slot. A
/// file that then stands in the slot is removed if it is over its share, or if the append would take
/// the two files together over the limit.
pub open spec fn rotation_plan(sizes: FileSizes, size_limit: nat, pending: nat) -> RotationPlan {
    let overflows = sizes.overflows(size_limit, pending);
    let moving = RotationPlan {
        remove_rotated: overflows && sizes.rotated > 0,
        rename_current: overflows && sizes.current > 0,
        remove_oversized: false,
    };
    let moved = sizes.moved(moving);
    RotationPlan {
        remove_oversized: moved.rotated > per_file_limit(size_limit) || moved.appended(
            pending,
        ).total() > size_limit,
        ..moving
    }
}

/// Decides what to do before `pending_bytes` are appended to the event file; `None` refuses an
/// append that is larger than the limit.
pub fn plan_rotation(
    current_size: u64,
    rotated_size: u64,
    size_limit: usize,
    pending_bytes: usize,
) -> (plan: Option<RotationPlan>)
    ensures
        plan == (if fits(size_limit as nat, pending_bytes as nat) {
            Some(
                rotation_plan(
                    FileSizes { current: current_size as nat, rotated: rotated_size as nat },
                    size_limit as nat,
                    pending_bytes as nat,
                ),
            )
        } else {
            None
        }),
        plan is None <==> pending_bytes > size_limit,
{
    if pending_bytes > size_limit {
        return None;
    }
    let pending_size: u128 = pending_bytes as u128;
    let max_total_size: u128 = size_limit as u128;
    let limit: u128 = max_total_size * PER_FILE_PERCENT as u128 / 100;
    let mut base_size: u64 = current_size;
    let mut slot_size: u64 = rotated_size;
    let mut plan = RotationPlan {
        remove_rotated: false,
        rename_current: false,
        remove_oversized: false,
    };
    if current_size as u128 + pending_size > limit {
        if slot_size > 0 {
            plan.remove_rotated = true;
            slot_size = 0;
        }
        if current_size > 0 {
            plan.rename_current = true;
            slot_size = current_size;
            base_size = 0;
        }
    }
    if slot_size as u128 > limit || base_size as u128 + pending_size + slot_size as u128
        > max_total_size {
        plan.remove_oversized = true;
    }
    Some(plan)
}

/// After an append that fits into one file's share, each of the two files is within its share, so
/// that the two together take at most twice [`PER_FILE_PERCENT`] percent of the size limit, whatever
/// the sizes were before.
pub proof fn law_files_stay_within_their_shares(sizes: FileSizes, size_limit: nat, pending: nat)
    requires
        pending <= per_file_limit(size_limit),
    ensures
        ({
            let after = sizes.after(rotation_plan(sizes, size_limit, pending)).appended(pending);
            &&& after.current <= per_file_limit(size_limit)
            &&& after.rotated <= per_file_limit(size_limit)
            &&& (after.current + after.rotated) * 100 <= size_limit * (2 * PER_FILE_PERCENT)
        }),
{
    assert(size_limit * PER_FILE_PERCENT as nat == size_limit * 40);
    assert(size_limit * (2 * PER_FILE_PERCENT) == size_limit * 80);
}

/// After every append that is not refused, the two files together are within the limit, whatever the
/// sizes were before.
pub proof fn law_files_stay_within_the_limit(sizes: FileSizes, size_limit: nat, pending: nat)
    requires
        fits(size_limit, pending),
    ensures
        sizes.after(rotation_plan(sizes, size_limit, pending)).appended(pending).total()
            <= size_limit,
{
    assert(size_limit * PER_FILE_PERCENT as nat == size_limit * 40);
}

/// Once a plan is done, the rotated file is within its share, and the event file either has room for
/// the append or is empty.
pub proof fn law_plan_makes_room(sizes: FileSizes, size_limit: nat, pending: nat)
    ensures
        ({
            let after = sizes.after(rotation_plan(sizes, size_limit, pending));
            &&& after.rotated <= per_file_limit(size_limit)
            &&& after.current + pending <= per_file_limit(size_limit) || after.current == 0
        }),
{
}

/// Planning again once a plan is done, as a retry of the same append does, changes nothing, where
/// the append fits into one file's share.
pub proof fn law_planning_again_changes_nothing(sizes: FileSizes, size_limit: nat, pending: nat)
    requires
        pending <= per_file_limit(size_limit),
    ensures
        ({
            let after = sizes.after(rotation_plan(sizes, size_limit, pending));
            &&& rotation_plan(after, size_limit, pending) == (RotationPlan {
                remove_rotated: false,
                rename_current: false,
                remove_oversized: false,
            })
            &&& after.after(rotation_plan(after, size_limit, pending)) == after
        }),
{
    assert(size_limit * PER_FILE_PERCENT as nat == size_limit * 40);
}

/// As long as an append fits, nothing is moved, and no file within its share is touched.
pub proof fn law_no_rotation_without_need(sizes: FileSizes, size_limit: nat, pending: nat)
    requires
        !sizes.overflows(size_limit, pending),
        sizes.rotated <= per_file_limit(size_limit),
    ensures
        rotation_plan(sizes, size_limit, pending) == (RotationPlan {
            remove_rotated: false,
            rename_current: false,
            remove_oversized: false,
        }),
        sizes.after(rotation_plan(sizes, size_limit, pending)) == sizes,
{
    assert(size_limit * PER_FILE_PERCENT as nat == size_limit * 40);
}

/// A rotation keeps the event file where there is room: within its share, not empty, and within the
/// limit together with the append, it stands in the rotated slot afterwards, and the append starts a
/// new file.
pub proof fn law_rotation_keeps_the_event_file(sizes: FileSizes, size_limit: nat, pending: nat)
    requires
        sizes.overflows(size_limit, pending),
        0 < sizes.current <= per_file_limit(size_limit),
        sizes.current + pending <= size_limit,
    ensures
        sizes.after(rotation_plan(sizes, size_limit, pending)) == (FileSizes {
            current: 0,
            rotated: sizes.current,
        }),
{
}

/// A write that is not refused loses nothing but the oldest history: what is kept is the end of what
/// was kept before followed by the text. The text stands whole at the end of the event file. The
/// sizes are those that the plan leads to.
pub proof fn law_a_write_loses_only_the_oldest(files: FileContents, size_limit: nat, text: Seq<u8>)
    requires
        fits(size_limit, text.len()),
    ensures
        files.written(size_limit, text).history().is_suffix_of(files.history() + text),
        text.is_suffix_of(files.written(size_limit, text).current),
        files.written(size_limit, text).sizes() == files.sizes().after(
            rotation_plan(files.sizes(), size_limit, text.len()),
        ).appended(text.len()),
{
    let after = files.written(size_limit, text);
    let whole = files.history() + text;
    assert(whole.subrange(whole.len() - after.history().len(), whole.len() as int)
        =~= after.history());
    assert(after.current.subrange(after.current.len() - text.len(), after.current.len() as int)
        =~= text);
}

/// Nothing is removed and nothing is moved where the event file with the append, and the rotated
/// file, are both within 40 percent of the limit.
pub proof fn law_nothing_is_done_while_both_files_fit(
    current: nat,
    rotated: nat,
    size_limit: nat,
    pending: nat,
)
    requires
        current + pending <= size_limit * 40 / 100,
        rotated <= size_limit * 40 / 100,
    ensures
        rotation_plan(FileSizes { current, rotated }, size_limit, pending) == (RotationPlan {
            remove_rotated: false,
            rename_current: false,
            remove_oversized: false,
        }),
{
    assert(size_limit * PER_FILE_PERCENT as nat == size_limit * 40);
}

/// Where the event file with the append is within 40 percent of the limit, and the rotated file is
/// not, that file is removed, and nothing is moved.
pub proof fn law_oversized_history_goes_alone(
    current: nat,
    rotated: nat,
    size_limit: nat,
    pending: nat,
)
    requires
        current + pending <= size_limit * 40 / 100,
        rotated > size_limit * 40 / 100,
    ensures
        rotation_plan(FileSizes { current, rotated }, size_limit, pending) == (RotationPlan {
            remove_rotated: false,
            rename_current: false,
            remove_oversized: true,
        }),
{
    assert(size_limit * PER_FILE_PERCENT as nat == size_limit * 40);
}

/// Where the event file with the append is over 40 percent of the limit, the file is moved unless it
/// is empty, and an older rotated file goes. The moved file stays exactly where it is within 40
/// percent of the limit and fits under the limit together with the append.
pub proof fn law_overflowing_file_is_rotated(
    current: nat,
    rotated: nat,
    size_limit: nat,
    pending: nat,
)
    requires
        current + pending > size_limit * 40 / 100,
        pending <= size_limit,
    ensures
        rotation_plan(FileSizes { current, rotated }, size_limit, pending) == (RotationPlan {
            remove_rotated: rotated > 0,
            rename_current: current > 0,
            remove_oversized: current > size_limit * 40 / 100 || current + pending > size_limit,
        }),
{
    assert(size_limit * PER_FILE_PERCENT as nat == size_limit * 40);
}

} // verus!
