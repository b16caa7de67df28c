//! What a write does to the files of the store's directory, step by step,
//! and the guarantees of the protocol: the key's file holds the old value or
//! the whole new one at every point, never a mixture.

use vstd::prelude::*;
use crate::key::{
    key_file_name, key_suffix, lemma_key_file_names_distinct, lemma_temp_name_not_key_name, temp_file_name, temp_suffix,
};
use crate::store::joined;
use crate::write::{advance, initial_state, is_over, WriteState, WriteStep};

verus! {

/// How the filesystem answered one step: whether it succeeded, and what a
/// failed step may have left in the temporary file.
pub struct StepReport {
    pub ok: bool,
    pub junk: Seq<u8>,
}

/// Whether the entry at `p` is the same in `before` and `after`: absent from
/// both, or present in both with the same contents.
pub open spec fn unchanged_at(before: Map<Seq<u8>, Seq<u8>>, after: Map<Seq<u8>, Seq<u8>>, p: Seq<u8>) -> bool {
    before.contains_key(p) == after.contains_key(p)
    && (before.contains_key(p) ==> before[p] == after[p])
}

/// The files after the step of `s` is performed on `files` (path to contents),
/// writing `value`: as the step succeeded (`ok`) or failed, a failure leaving
/// `junk` in the temporary file. A failed rename changes nothing: the rename
/// replaces the directory entry in one piece.
pub open spec fn perform(
    files: Map<Seq<u8>, Seq<u8>>,
    s: WriteState,
    ok: bool,
    value: Seq<u8>,
    junk: Seq<u8>,
) -> Map<Seq<u8>, Seq<u8>> {
    match s.step {
        WriteStep::CreateTemp => files.insert(s.temp, if ok { Seq::empty() } else { junk }),
        WriteStep::CopyValue => files.insert(s.temp, if ok { value } else { junk }),
        WriteStep::Flush | WriteStep::Sync => if ok {
            files
        } else {
            files.insert(s.temp, junk)
        },
        WriteStep::Rename => if ok && files.contains_key(s.temp) {
            files.remove(s.temp).insert(s.target, files[s.temp])
        } else {
            files
        },
        _ => files,
    }
}

/// The files and the session's state after the steps answered by `reports`,
/// from `files` and `s`, writing `value`; a step that copies reports the length
/// of `value`. Steps stop once the write is over.
pub open spec fn run(
    files: Map<Seq<u8>, Seq<u8>>,
    s: WriteState,
    reports: Seq<StepReport>,
    value: Seq<u8>,
) -> (Map<Seq<u8>, Seq<u8>>, WriteState)
    decreases reports.len(),
{
    if reports.len() == 0 || is_over(s.step) {
        (files, s)
    } else {
        run(
            perform(files, s, reports[0].ok, value, reports[0].junk),
            advance(s, reports[0].ok, value.len() as u64),
            reports.skip(1),
            value,
        )
    }
}

/// `n` steps that all succeed.
pub open spec fn all_ok(n: nat) -> Seq<StepReport> {
    Seq::new(n, |i: int| StepReport { ok: true, junk: Seq::empty() })
}

/// What holds of the files `f` and the state `s` of a write of `value`,
/// started on the files `f0`.
pub open spec fn write_inv(
    f0: Map<Seq<u8>, Seq<u8>>,
    f: Map<Seq<u8>, Seq<u8>>,
    s: WriteState,
    value: Seq<u8>,
) -> bool {
    &&& forall|p: Seq<u8>| p != s.temp && p != s.target ==> #[trigger] unchanged_at(f0, f, p)
    &&& s.step != WriteStep::Finished ==> unchanged_at(f0, f, s.target)
    &&& (s.step == WriteStep::Flush || s.step == WriteStep::Sync || s.step == WriteStep::Rename)
        ==> f.contains_key(s.temp) && f[s.temp] == value && s.copied == value.len()
    &&& s.step == WriteStep::Finished ==> f.contains_key(s.target) && f[s.target] == value
        && !f.contains_key(s.temp) && s.copied == value.len()
}

proof fn lemma_run_keeps_inv(
    f0: Map<Seq<u8>, Seq<u8>>,
    f: Map<Seq<u8>, Seq<u8>>,
    s: WriteState,
    reports: Seq<StepReport>,
    value: Seq<u8>,
)
    requires
        s.temp != s.target,
        value.len() <= u64::MAX,
        write_inv(f0, f, s, value),
    ensures
        write_inv(f0, run(f, s, reports, value).0, run(f, s, reports, value).1, value),
        run(f, s, reports, value).1.temp == s.temp,
        run(f, s, reports, value).1.target == s.target,
    decreases reports.len(),
{
    if reports.len() == 0 || is_over(s.step) {
    } else {
        let f2 = perform(f, s, reports[0].ok, value, reports[0].junk);
        let s2 = advance(s, reports[0].ok, value.len() as u64);
        assert forall|p: Seq<u8>| p != s2.temp && p != s2.target implies #[trigger] unchanged_at(f0, f2, p) by {
            assert(unchanged_at(f0, f, p));
        }
        assert(write_inv(f0, f2, s2, value));
        lemma_run_keeps_inv(f0, f2, s2, reports.skip(1), value);
    }
}

/// The path of an entry ends with the entry's name.
proof fn lemma_joined_last(root: Seq<u8>, name: Seq<u8>)
    requires
        name.len() > 0,
    ensures
        joined(root, name).last() == name.last(),
{
}

/// In one directory, the temporary file of a key is never the file of a key.
pub proof fn lemma_temp_path_not_key_path(root: Seq<u8>, k1: Seq<u8>, k2: Seq<u8>)
    ensures
        joined(root, temp_file_name(k1)) != joined(root, key_file_name(k2)),
{
    lemma_temp_name_not_key_name(k1, k2);
    assert(temp_suffix().len() == 4 && key_suffix().len() == 4);
    lemma_joined_last(root, temp_file_name(k1));
    lemma_joined_last(root, key_file_name(k2));
    assert(temp_file_name(k1).last() == 0x70u8);
    assert(key_file_name(k2).last() == 0x79u8);
}

/// Whatever the filesystem answers at each step, and wherever the write
/// stops, the file of the key holds its old contents (or is still absent) or
/// holds the whole new value; no other file but the temporary one changes; a
/// write that failed leaves the key's file as it was; and a finished write
/// leaves the new value there and reports its length.
pub proof fn lemma_write_all_or_nothing(
    root: Seq<u8>,
    key: Seq<u8>,
    files: Map<Seq<u8>, Seq<u8>>,
    reports: Seq<StepReport>,
    value: Seq<u8>,
)
    requires
        value.len() <= u64::MAX,
    ensures
        ({
            let s0 = initial_state(root, key);
            let (f, s) = run(files, s0, reports, value);
            &&& f.contains_key(s0.target) ==> f[s0.target] == value || (files.contains_key(s0.target)
                && f[s0.target] == files[s0.target])
            &&& files.contains_key(s0.target) ==> f.contains_key(s0.target)
            &&& forall|p: Seq<u8>| p != s0.temp && p != s0.target ==> #[trigger] unchanged_at(files, f, p)
            &&& s.step == WriteStep::Aborted ==> unchanged_at(files, f, s0.target)
            &&& s.step == WriteStep::Finished ==> f.contains_key(s0.target) && f[s0.target] == value
                && s.copied == value.len()
        }),
{
    let s0 = initial_state(root, key);
    lemma_temp_path_not_key_path(root, key, key);
    lemma_run_keeps_inv(files, files, s0, reports, value);
}

/// One more successful step, then `n` more.
proof fn lemma_run_ok_step(files: Map<Seq<u8>, Seq<u8>>, s: WriteState, n: nat, value: Seq<u8>)
    requires
        n > 0,
        !is_over(s.step),
    ensures
        run(files, s, all_ok(n), value) == run(
            perform(files, s, true, value, Seq::empty()),
            advance(s, true, value.len() as u64),
            all_ok((n - 1) as nat),
            value,
        ),
{
    assert(all_ok(n).skip(1) =~= all_ok((n - 1) as nat));
}

/// The state of a write after `n` successful steps.
proof fn lemma_run_ok(files: Map<Seq<u8>, Seq<u8>>, s: WriteState, n: nat, value: Seq<u8>)
    requires
        s.step == WriteStep::CreateTemp,
        n <= 5,
    ensures
        run(files, s, all_ok(n), value).1.step == (if n == 0 {
            WriteStep::CreateTemp
        } else if n == 1 {
            WriteStep::CopyValue
        } else if n == 2 {
            WriteStep::Flush
        } else if n == 3 {
            WriteStep::Sync
        } else if n == 4 {
            WriteStep::Rename
        } else {
            WriteStep::Finished
        }),
{
    let z = Seq::<u8>::empty();
    let l = value.len() as u64;
    if n > 0 {
        lemma_run_ok_step(files, s, n, value);
        let (f1, s1) = (perform(files, s, true, value, z), advance(s, true, l));
        if n > 1 {
            lemma_run_ok_step(f1, s1, (n - 1) as nat, value);
            let (f2, s2) = (perform(f1, s1, true, value, z), advance(s1, true, l));
            if n > 2 {
                lemma_run_ok_step(f2, s2, (n - 2) as nat, value);
                let (f3, s3) = (perform(f2, s2, true, value, z), advance(s2, true, l));
                if n > 3 {
                    lemma_run_ok_step(f3, s3, (n - 3) as nat, value);
                    let (f4, s4) = (perform(f3, s3, true, value, z), advance(s3, true, l));
                    if n > 4 {
                        lemma_run_ok_step(f4, s4, (n - 4) as nat, value);
                        let (f5, s5) = (perform(f4, s4, true, value, z), advance(s4, true, l));
                        assert(all_ok(0) =~= Seq::empty());
                        assert(run(f5, s5, all_ok(0), value) == (f5, s5));
                    } else {
                        assert(run(f4, s4, all_ok(0), value) == (f4, s4));
                    }
                } else {
                    assert(run(f3, s3, all_ok(0), value) == (f3, s3));
                }
            } else {
                assert(run(f2, s2, all_ok(0), value) == (f2, s2));
            }
        } else {
            assert(run(f1, s1, all_ok(0), value) == (f1, s1));
        }
    }
}

/// A write whose steps all succeed, read back: the key's file holds exactly
/// the value written, and the write reports the value's length.
pub proof fn lemma_write_then_read(
    root: Seq<u8>,
    key: Seq<u8>,
    files: Map<Seq<u8>, Seq<u8>>,
    value: Seq<u8>,
)
    requires
        value.len() <= u64::MAX,
    ensures
        ({
            let (f, s) = run(files, initial_state(root, key), all_ok(5), value);
            &&& s.step == WriteStep::Finished
            &&& s.copied == value.len()
            &&& f.contains_key(joined(root, key_file_name(key)))
            &&& f[joined(root, key_file_name(key))] == value
        }),
{
    lemma_run_ok(files, initial_state(root, key), 5, value);
    lemma_write_all_or_nothing(root, key, files, all_ok(5), value);
}

/// A write stopped after the temporary file was written and synced, before
/// the rename: the key's file is as it was (absent, or with its old value),
/// and the temporary file holds the whole new value.
pub proof fn lemma_crash_before_rename(
    root: Seq<u8>,
    key: Seq<u8>,
    files: Map<Seq<u8>, Seq<u8>>,
    value: Seq<u8>,
)
    requires
        value.len() <= u64::MAX,
    ensures
        ({
            let (f, s) = run(files, initial_state(root, key), all_ok(4), value);
            &&& s.step == WriteStep::Rename
            &&& unchanged_at(files, f, joined(root, key_file_name(key)))
            &&& f.contains_key(joined(root, temp_file_name(key)))
            &&& f[joined(root, temp_file_name(key))] == value
        }),
{
    let s0 = initial_state(root, key);
    lemma_run_ok(files, s0, 4, value);
    lemma_temp_path_not_key_path(root, key, key);
    lemma_run_keeps_inv(files, files, s0, all_ok(4), value);
}

/// In one directory, distinct keys have distinct files.
pub proof fn lemma_key_paths_distinct(root: Seq<u8>, k1: Seq<u8>, k2: Seq<u8>)
    requires
        k1 != k2,
    ensures
        joined(root, key_file_name(k1)) != joined(root, key_file_name(k2)),
{
    lemma_key_file_names_distinct(k1, k2);
    let a = joined(root, key_file_name(k1));
    let b = joined(root, key_file_name(k2));
    let d = a.len() - key_file_name(k1).len();
    if a == b {
        assert(key_file_name(k1) =~= a.skip(d));
        assert(key_file_name(k2) =~= b.skip(d));
    }
}

/// A write of one key, however it goes, leaves the file of every other key as it was.
pub proof fn lemma_other_keys_untouched(
    root: Seq<u8>,
    key: Seq<u8>,
    other: Seq<u8>,
    files: Map<Seq<u8>, Seq<u8>>,
    reports: Seq<StepReport>,
    value: Seq<u8>,
)
    requires
        key != other,
        value.len() <= u64::MAX,
    ensures
        unchanged_at(
            files,
            run(files, initial_state(root, key), reports, value).0,
            joined(root, key_file_name(other)),
        ),
{
    lemma_key_paths_distinct(root, other, key);
    lemma_temp_path_not_key_path(root, key, other);
    lemma_write_all_or_nothing(root, key, files, reports, value);
}

} // verus!
