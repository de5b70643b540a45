//! Decisions of the rotating log: when to rotate, which file operations a
//! rotation performs, and the names of the rotated files.
use vstd::prelude::*;
use vstd::string::StringExecFns;
use crate::text::{decimal, push_decimal};

verus! {

/// Lines the active file holds before it is rotated.
pub const MAX_LINES: usize = 20000;

/// Files kept: the active one and `MAX_FILES - 1` rotated ones.
pub const MAX_FILES: usize = 4;

/// One step of a rotation. Index 0 is the active file, index `i >= 1` the
/// rotated file with suffix `.i`.
#[derive(PartialEq, Eq, Structural, Clone, Copy, Debug)]
pub enum FileOp {
    /// Delete the file at this index, if present.
    Remove(usize),
    /// Rename the file at the first index to the second, if present.
    Rename(usize, usize),
    /// Open a fresh file at index 0.
    CreateActive,
}

/// The line counter of the active log file and the rotation limits.
pub struct LogCounter {
    /// Lines written to the active file since it was started.
    pub current_lines: usize,
    pub max_lines: usize,
    pub max_files: usize,
}

/// The operations of one rotation with `m` files kept: delete the oldest,
/// shift `.i` to `.i+1` from the highest index down, move the active file to
/// `.1`, then open a fresh active file.
pub open spec fn rotation_ops(m: nat) -> Seq<FileOp>
    recommends
        m >= 2,
{
    seq![FileOp::Remove((m - 1) as usize)]
        + Seq::new((m - 2) as nat, |k: int| FileOp::Rename((m - 2 - k) as usize, (m - 1 - k) as usize))
        + seq![FileOp::Rename(0, 1), FileOp::CreateActive]
}

/// The name of the file at `index`: the base path itself, or the base path
/// with suffix `.index`.
pub open spec fn file_name_spec(base: Seq<char>, index: nat) -> Seq<char> {
    if index == 0 { base } else { base + "."@ + decimal(index) }
}

/// The name of the log file at `index` (0 for the active file).
pub fn file_name(base: &str, index: usize) -> (r: String)
    ensures
        r@ == file_name_spec(base@, index as nat),
{
    let mut r = String::from_str(base);
    if index > 0 {
        r.append(".");
        push_decimal(&mut r, index as u128);
    }
    r
}

/// The line count after one more line was written to a file that held
/// `cur` lines: a rotation first when `cur` has reached `max`.
pub open spec fn next_count(cur: nat, max: nat) -> nat {
    if cur >= max { 1 } else { cur + 1 }
}

/// One logged line, when the rotation it may need opens the fresh file and
/// the write succeeds: `begin_write`, then `finish_rotation(true)` if a
/// rotation was asked for, then `end_write(true)`, leave the count at
/// `next_count` of the count before.
pub proof fn lemma_logged_line_step(
    before: LogCounter,
    rotate: bool,
    rotated: LogCounter,
    after: LogCounter,
)
    requires
        before.current_lines < usize::MAX,
        rotate == (before.current_lines >= before.max_lines),
        rotated.current_lines == if rotate { 0 } else { before.current_lines },
        rotated.max_lines == before.max_lines,
        after.current_lines == if rotated.current_lines < usize::MAX {
            rotated.current_lines + 1
        } else {
            rotated.current_lines as int
        },
    ensures
        after.current_lines == next_count(before.current_lines as nat, before.max_lines as nat),
{
}

/// The line count after `k` more lines were written, starting from `start`,
/// each write rotating first when the count has reached `max`.
pub open spec fn lines_after(start: nat, max: nat, k: nat) -> nat
    decreases k,
{
    if k == 0 {
        start
    } else {
        next_count(lines_after(start, max, (k - 1) as nat), max)
    }
}

/// The rotations performed while writing `k` lines, starting from `start`.
pub open spec fn rotations_during(start: nat, max: nat, k: nat) -> nat
    decreases k,
{
    if k == 0 {
        0
    } else {
        rotations_during(start, max, (k - 1) as nat)
            + if lines_after(start, max, (k - 1) as nat) >= max { 1nat } else { 0nat }
    }
}

proof fn lemma_no_rotation_below_max(max: nat, k: nat)
    requires
        k <= max,
    ensures
        lines_after(0, max, k) == k,
        rotations_during(0, max, k) == 0,
    decreases k,
{
    if k > 0 {
        lemma_no_rotation_below_max(max, (k - 1) as nat);
    }
}

/// Starting from an empty active file, the first `max` lines are written
/// without rotating, the count then stands at `max`, and the next line
/// rotates exactly once, after which the new file holds that one line.
pub proof fn lemma_rotation_after_max_lines(max: nat)
    ensures
        forall|k: nat| k <= max ==> #[trigger] lines_after(0, max, k) == k && rotations_during(0, max, k) == 0,
        rotations_during(0, max, max + 1) == 1,
        lines_after(0, max, max + 1) == 1,
{
    assert forall|k: nat| k <= max implies #[trigger] lines_after(0, max, k) == k && rotations_during(0, max, k) == 0 by {
        lemma_no_rotation_below_max(max, k);
    }
    lemma_no_rotation_below_max(max, max);
}

/// The log files on disk: index (0 for the active file, `i` for suffix
/// `.i`) to the identity of the file's contents.
pub open spec fn apply_op(files: Map<nat, int>, op: FileOp, fresh: int) -> Map<nat, int> {
    match op {
        FileOp::Remove(i) => files.remove(i as nat),
        FileOp::Rename(a, b) => if files.contains_key(a as nat) {
            files.remove(a as nat).insert(b as nat, files[a as nat])
        } else {
            files
        },
        FileOp::CreateActive => if files.contains_key(0) { files } else { files.insert(0, fresh) },
    }
}

/// The files after performing `ops` in order; a created file gets `fresh`.
pub open spec fn apply_ops(files: Map<nat, int>, ops: Seq<FileOp>, fresh: int) -> Map<nat, int>
    decreases ops.len(),
{
    if ops.len() == 0 {
        files
    } else {
        apply_op(apply_ops(files, ops.drop_last(), fresh), ops.last(), fresh)
    }
}

/// Every file's index is below `m`.
pub open spec fn within(files: Map<nat, int>, m: nat) -> bool {
    forall|i: nat| #[trigger] files.contains_key(i) ==> i < m
}

/// The files after a rotation: a fresh active file, the old active file at
/// `.1`, and each `.i` below `.m-1` moved to `.i+1`; the old `.m-1` is gone,
/// and files with a suffix of `m` or more are left as they were.
pub open spec fn rotated_files(files: Map<nat, int>, m: nat, fresh: int) -> Map<nat, int> {
    Map::new(
        |i: nat| i == 0 || (i < m && files.contains_key((i - 1) as nat))
            || (i >= m && files.contains_key(i)),
        |i: nat| if i == 0 { fresh } else if i >= m { files[i] } else { files[(i - 1) as nat] },
    )
}

/// The files after the removal and the first `j` shifts of a rotation.
spec fn shifted(files: Map<nat, int>, m: nat, j: nat) -> Map<nat, int> {
    Map::new(
        |i: nat| (i + 1 + j < m && files.contains_key(i))
            || (m <= i + j && i < m && i >= 1 && files.contains_key((i - 1) as nat))
            || (i >= m && files.contains_key(i)),
        |i: nat| if i + 1 + j < m || i >= m { files[i] } else { files[(i - 1) as nat] },
    )
}

proof fn lemma_shifts(files: Map<nat, int>, m: nat, fresh: int, j: nat)
    requires
        2 <= m <= usize::MAX,
        j <= m - 2,
    ensures
        apply_ops(files, rotation_ops(m).take(1 + j as int), fresh) =~= shifted(files, m, j),
    decreases j,
{
    let ops = rotation_ops(m);
    assert(ops.len() == m + 1);
    if j == 0 {
        let t = ops.take(1);
        assert(t.drop_last() =~= Seq::<FileOp>::empty());
        assert(t.last() == FileOp::Remove((m - 1) as usize));
        assert(apply_ops(files, t.drop_last(), fresh) == files);
    } else {
        lemma_shifts(files, m, fresh, (j - 1) as nat);
        let t = ops.take(1 + j as int);
        assert(t.drop_last() =~= ops.take(j as int));
        let k = j - 1;
        assert(t.last() == FileOp::Rename((m - 2 - k) as usize, (m - 1 - k) as usize));
    }
}

/// A rotation leaves exactly the files that `rotated_files` describes: the
/// oldest rotated file is gone and every other one moved up by one suffix.
/// When no index reached `m` before, none does after, so at most `m - 1`
/// rotated files and the active one remain.
pub proof fn lemma_rotation_keeps_bounded(files: Map<nat, int>, m: nat, fresh: int)
    requires
        2 <= m <= usize::MAX,
    ensures
        apply_ops(files, rotation_ops(m), fresh) =~= rotated_files(files, m, fresh),
        within(files, m) ==> within(rotated_files(files, m, fresh), m),
        rotated_files(files, m, fresh)[0] == fresh,
        files.contains_key(0) ==> rotated_files(files, m, fresh)[1] == files[0],
{
    let ops = rotation_ops(m);
    lemma_shifts(files, m, fresh, (m - 2) as nat);
    let a = ops.take(m as int - 1);
    let b = ops.take(m as int);
    assert(ops.len() == m + 1);
    assert(b.drop_last() =~= a);
    assert(b.last() == FileOp::Rename(0, 1));
    assert(ops.drop_last() =~= b);
    assert(ops.last() == FileOp::CreateActive);
    let sh = shifted(files, m, (m - 2) as nat);
    assert(apply_ops(files, a, fresh) == sh);
    let after_move = apply_op(sh, FileOp::Rename(0, 1), fresh);
    assert(apply_ops(files, b, fresh) == after_move);
    assert(!after_move.contains_key(0));
    let done = apply_op(after_move, FileOp::CreateActive, fresh);
    assert(apply_ops(files, ops, fresh) == done);
    assert(done =~= rotated_files(files, m, fresh));
}

/// The files after one rotation for each of `ids`, in order, the `k`-th
/// fresh active file getting `ids[k]`.
pub open spec fn files_after_rotations(files: Map<nat, int>, m: nat, ids: Seq<int>) -> Map<nat, int>
    decreases ids.len(),
{
    if ids.len() == 0 {
        files
    } else {
        apply_ops(files_after_rotations(files, m, ids.drop_last()), rotation_ops(m), ids.last())
    }
}

/// Starting from a lone active file `first`, after `k` rotations whose fresh
/// files are `ids`, the files present are the active one and the `min(k,
/// m - 1)` most recent backups: suffix `i` holds the file that was active
/// `i` rotations ago, and every older one has been deleted.
pub proof fn lemma_rotations_keep_latest(first: int, m: nat, ids: Seq<int>)
    requires
        2 <= m <= usize::MAX,
    ensures
        ({
            let all = seq![first] + ids;
            let r = files_after_rotations(map![0nat => first], m, ids);
            &&& forall|i: nat| #[trigger] r.contains_key(i) <==> (i <= ids.len() && i < m)
            &&& forall|i: nat| i <= ids.len() && i < m ==> #[trigger] r[i] == all[ids.len() - i]
        }),
    decreases ids.len(),
{
    let all = seq![first] + ids;
    let k = ids.len();
    let start = map![0nat => first];
    if k == 0 {
        let r = files_after_rotations(start, m, ids);
        assert(r == start);
        assert forall|i: nat| #[trigger] r.contains_key(i) <==> (i <= ids.len() && i < m) by {}
    } else {
        let q = ids.drop_last();
        lemma_rotations_keep_latest(first, m, q);
        let prev = files_after_rotations(start, m, q);
        lemma_rotation_keeps_bounded(prev, m, ids.last());
        let r = files_after_rotations(start, m, ids);
        assert(r == rotated_files(prev, m, ids.last()));
        let pall = seq![first] + q;
        assert forall|i: nat| #[trigger] r.contains_key(i) <==> (i <= k && i < m) by {
            if i > 0 && i < m {
                assert(prev.contains_key((i - 1) as nat) <==> (i - 1 <= q.len() && i - 1 < m));
            }
            if i >= m {
                assert(prev.contains_key(i) <==> (i <= q.len() && i < m));
            }
        }
        assert forall|i: nat| i <= k && i < m implies #[trigger] r[i] == all[k - i] by {
            if i == 0 {
                assert(all[k as int] == ids[k - 1]);
            } else {
                let j = (i - 1) as nat;
                assert(prev[j] == pall[q.len() - j]);
                assert(pall[q.len() - j] == all[k - i]);
            }
        }
    }
}

impl LogCounter {
    /// Limits hold: at least one rotated file is kept.
    pub open spec fn wf(&self) -> bool {
        self.max_files >= 2
    }

    /// A counter for an active file that already holds `existing_lines`
    /// lines, with the default limits.
    pub fn new(existing_lines: usize) -> (c: LogCounter)
        ensures
            c.wf(),
            c.current_lines == existing_lines,
            c.max_lines == MAX_LINES,
            c.max_files == MAX_FILES,
    {
        LogCounter { current_lines: existing_lines, max_lines: MAX_LINES, max_files: MAX_FILES }
    }

    /// A counter with the given limits.
    pub fn with_limits(existing_lines: usize, max_lines: usize, max_files: usize) -> (c: LogCounter)
        requires
            max_files >= 2,
        ensures
            c.wf(),
            c.current_lines == existing_lines,
            c.max_lines == max_lines,
            c.max_files == max_files,
    {
        LogCounter { current_lines: existing_lines, max_lines, max_files }
    }

    /// Called before a line goes to the file: whether the files must be
    /// rotated first, because the active file has reached `max_lines`.
    pub fn begin_write(&self) -> (rotate: bool)
        ensures
            rotate == (self.current_lines >= self.max_lines),
    {
        self.current_lines >= self.max_lines
    }

    /// Called after the file steps of a rotation. The count starts again
    /// from 0 only if the fresh active file was opened; otherwise lines keep
    /// going to the file already open, and its count goes on.
    pub fn finish_rotation(&mut self, created: bool)
        ensures
            final(self).current_lines == if created { 0 } else { old(self).current_lines },
            final(self).max_lines == old(self).max_lines,
            final(self).max_files == old(self).max_files,
    {
        if created {
            self.current_lines = 0;
        }
    }

    /// Called after a line was handed to the file; the line counts only
    /// if it was written.
    pub fn end_write(&mut self, written: bool)
        ensures
            final(self).current_lines == if written && old(self).current_lines < usize::MAX {
                old(self).current_lines + 1
            } else {
                old(self).current_lines as int
            },
            final(self).max_lines == old(self).max_lines,
            final(self).max_files == old(self).max_files,
    {
        if written && self.current_lines < usize::MAX {
            self.current_lines = self.current_lines + 1;
        }
    }

    /// The file operations of one rotation.
    pub fn rotation_plan(&self) -> (ops: Vec<FileOp>)
        requires
            self.wf(),
        ensures
            ops@ == rotation_ops(self.max_files as nat),
    {
        let m = self.max_files;
        let mut ops: Vec<FileOp> = Vec::new();
        ops.push(FileOp::Remove(m - 1));
        let mut i: usize = m - 1;
        while i > 1
            invariant
                m == self.max_files,
                m >= 2,
                1 <= i <= m - 1,
                ops@ =~= seq![FileOp::Remove((m - 1) as usize)]
                    + Seq::new((m - 1 - i) as nat, |k: int| FileOp::Rename((m - 2 - k) as usize, (m - 1 - k) as usize)),
            decreases i,
        {
            i = i - 1;
            ops.push(FileOp::Rename(i, i + 1));
        }
        ops.push(FileOp::Rename(0, 1));
        ops.push(FileOp::CreateActive);
        assert(ops@ =~= rotation_ops(m as nat));
        ops
    }
}

} // verus!
