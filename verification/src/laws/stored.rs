//! What is stored is read back: states, hashes and numbers.

use vstd::prelude::*;

use crate::text;
use crate::cron::CronStatus;
use crate::job::{CancelReason, JobStatus};
use crate::laws::texts::{print, printed};
use crate::storage::records::{
    cron_status_of, hash_of, highest, id_number, job_status_of, numbered, numbered_ids,
    opt_hash_of, script_ended, script_status_text, trim_char, StoredScriptRunStatus,
};
use crate::text::Text;
use crate::tui::status_view::{cron_text, job_text};

verus! {

proof fn lemma_prints()
    ensures
        print("pending"@) == printed(7, 'p', 'e'),
        print("running"@) == printed(7, 'r', 'u'),
        print("done"@) == printed(4, 'd', 'o'),
        print("failed"@) == printed(6, 'f', 'a'),
        print("killed"@) == printed(6, 'k', 'i'),
        print("cancelled"@) == printed(9, 'c', 'a'),
        print("scheduled"@) == printed(9, 's', 'c'),
        print("enabled"@) == printed(7, 'e', 'n'),
        print("paused"@) == printed(6, 'p', 'a'),
        print("disabled"@) == printed(8, 'd', 'i'),
        print("completed"@) == printed(9, 'c', 'o'),
        print("expired"@) == printed(7, 'e', 'x'),
        print("submitted"@) == printed(9, 's', 'u'),
        print("partial_error"@) == printed(13, 'p', 'a'),
{
    reveal_strlit("pending");
    reveal_strlit("running");
    reveal_strlit("done");
    reveal_strlit("failed");
    reveal_strlit("killed");
    reveal_strlit("cancelled");
    reveal_strlit("scheduled");
    reveal_strlit("enabled");
    reveal_strlit("paused");
    reveal_strlit("disabled");
    reveal_strlit("completed");
    reveal_strlit("expired");
    reveal_strlit("submitted");
    reveal_strlit("partial_error");
}

/// A state that decodes is that state, whatever its text; a state that does not is read
/// back from its word.
pub proof fn lemma_job_states_read_back(s: JobStatus, t: Text)
    ensures
        job_status_of(Some(s), t) == Ok::<JobStatus, Text>(s),
        !(s is Cancelled) ==> job_status_of(None, job_text(s)) == Ok::<JobStatus, Text>(s),
        job_status_of(None, "cancelled"@) == Ok::<JobStatus, Text>(
            JobStatus::Cancelled(CancelReason::User),
        ),
        job_status_of(None, "pending"@) == Ok::<JobStatus, Text>(JobStatus::Pending),
        job_status_of(None, "running"@) == Ok::<JobStatus, Text>(JobStatus::Running),
        job_status_of(None, "done"@) == Ok::<JobStatus, Text>(JobStatus::Done),
        job_status_of(None, "failed"@) == Ok::<JobStatus, Text>(JobStatus::Failed),
        job_status_of(None, "killed"@) == Ok::<JobStatus, Text>(JobStatus::Killed),
        job_status_of(None, t) matches Ok(x) ==> t == job_text(x) || t == "cancelled"@,
{
    lemma_prints();
}

proof fn lemma_nothing_to_trim(s: Text, c: char)
    requires
        s.len() > 0,
        s[0] != c,
        s.last() != c,
    ensures
        trim_char(s, c) == s,
        trim_char(seq![c] + s + seq![c], c) == s,
{
    let q = seq![c] + s + seq![c];
    let r = s + seq![c];
    assert(q[0] == c);
    assert(q.skip(1) =~= r);
    assert(r[0] == s[0] && r.last() == c);
    assert(r.drop_last() =~= s);
    assert(trim_char(r, c) == trim_char(s, c));
}

/// The state of a cron is read back from its word, with quotes round it or without.
pub proof fn lemma_cron_states_read_back(s: CronStatus, t: Text)
    ensures
        cron_status_of(Some(s), t) == Ok::<CronStatus, Text>(s),
        cron_status_of(None, cron_text(s)) == Ok::<CronStatus, Text>(s),
        cron_status_of(None, seq!['"'] + cron_text(s) + seq!['"']) == Ok::<CronStatus, Text>(s),
        cron_status_of(None, "scheduled"@) == Ok::<CronStatus, Text>(CronStatus::Scheduled),
        cron_status_of(None, "enabled"@) == Ok::<CronStatus, Text>(CronStatus::Scheduled),
        cron_status_of(None, "paused"@) == Ok::<CronStatus, Text>(CronStatus::Paused),
        cron_status_of(None, "disabled"@) == Ok::<CronStatus, Text>(CronStatus::Paused),
        cron_status_of(None, "completed"@) == Ok::<CronStatus, Text>(CronStatus::Completed),
        cron_status_of(None, "done"@) == Ok::<CronStatus, Text>(CronStatus::Completed),
        cron_status_of(None, "expired"@) == Ok::<CronStatus, Text>(CronStatus::Expired),
        cron_status_of(None, "failed"@) == Ok::<CronStatus, Text>(CronStatus::Failed),
{
    lemma_words_without_quotes();
    lemma_prints();
    lemma_nothing_to_trim(cron_text(s), '"');
    lemma_nothing_to_trim("scheduled"@, '"');
    lemma_nothing_to_trim("enabled"@, '"');
    lemma_nothing_to_trim("paused"@, '"');
    lemma_nothing_to_trim("disabled"@, '"');
    lemma_nothing_to_trim("completed"@, '"');
    lemma_nothing_to_trim("done"@, '"');
    lemma_nothing_to_trim("expired"@, '"');
    lemma_nothing_to_trim("failed"@, '"');
}

spec fn unquoted(t: Text) -> bool {
    t.len() > 0 && t[0] != '"' && t.last() != '"'
}

proof fn lemma_words_without_quotes()
    ensures
        unquoted("scheduled"@) && unquoted("enabled"@),
        unquoted("paused"@) && unquoted("disabled"@),
        unquoted("completed"@) && unquoted("done"@),
        unquoted("expired"@) && unquoted("failed"@),
{
    reveal_strlit("scheduled");
    reveal_strlit("enabled");
    reveal_strlit("paused");
    reveal_strlit("disabled");
    reveal_strlit("completed");
    reveal_strlit("done");
    reveal_strlit("expired");
    reveal_strlit("failed");
}

/// A script run has come to its end just when it is done or has failed, and its four states
/// have four names.
pub proof fn lemma_script_states(s: StoredScriptRunStatus, t: StoredScriptRunStatus)
    ensures
        script_ended(s) <==> (s is Done || s is Failed),
        s != t ==> script_status_text(s) != script_status_text(t),
        script_status_text(StoredScriptRunStatus::Submitted) == "submitted"@,
        script_status_text(StoredScriptRunStatus::PartialError) == "partial_error"@,
        script_status_text(StoredScriptRunStatus::Done) == "done"@,
        script_status_text(StoredScriptRunStatus::Failed) == "failed"@,
{
    lemma_prints();
}

/// Thirty-two bytes are a hash, as they stand; anything else is none.
pub proof fn lemma_hashes(blob: Seq<u8>)
    ensures
        blob.len() == 32 ==> hash_of(blob) == Ok::<Seq<u8>, Text>(blob) && opt_hash_of(Some(blob))
            == Ok::<Option<Seq<u8>>, Text>(Some(blob)),
        blob.len() != 32 ==> hash_of(blob) is Err && opt_hash_of(Some(blob)) is Err,
        opt_hash_of(None) == Ok::<Option<Seq<u8>>, Text>(None),
{
}

/// Only the letter of its kind and digits make an ID, and they make one up to the largest
/// number.
pub proof fn lemma_ids_of_one_kind(prefix: char, what: Text, id: Text, n: nat)
    ensures
        n <= u32::MAX ==> numbered(prefix, what, seq![prefix] + text::decimal(n)) == Ok::<
            nat,
            Text,
        >(n),
        n > u32::MAX ==> numbered(prefix, what, seq![prefix] + text::decimal(n)) is Err,
        id.len() == 0 || id[0] != prefix ==> numbered(prefix, what, id) is Err,
        numbered(prefix, what, id) is Ok ==> id.len() > 1 && id[0] == prefix && text::all_digits(
            id.skip(1),
        ),
{
    let t = seq![prefix] + text::decimal(n);
    assert(t.skip(1) =~= text::decimal(n));
    text::lemma_decimal_read_back(n, n);
    if n <= u32::MAX {
        text::lemma_decimal_read_back(n, u32::MAX as nat);
    }
}

/// Each ID comes with its own number, in the order of the IDs.
pub proof fn lemma_numbers_of_ids(prefix: char, what: Text, ids: Seq<Text>)
    ensures
        numbered_ids(prefix, what, ids) matches Ok(found) ==> found.len() == ids.len() && forall|
            i: int,
        |
            0 <= i < ids.len() ==> (#[trigger] found[i]).1 == ids[i] && id_number(prefix, ids[i])
                == Some(found[i].0 as nat),
        numbered_ids(prefix, what, ids) is Ok <==> forall|i: int|
            0 <= i < ids.len() ==> id_number(prefix, #[trigger] ids[i]) is Some,
    decreases ids.len(),
{
    if ids.len() > 0 {
        let front = ids.drop_last();
        lemma_numbers_of_ids(prefix, what, front);
        assert(forall|i: int| 0 <= i < front.len() ==> front[i] == #[trigger] ids[i]);
        assert(ids.last() == ids[ids.len() - 1]);
        if numbered_ids(prefix, what, ids) is Err && numbered_ids(prefix, what, front) is Err {
            let i = choose|i: int|
                0 <= i < front.len() && id_number(prefix, #[trigger] front[i]) is None;
            assert(ids[i] == front[i]);
        }
    }
}

/// The highest number is one of the numbers and at least as high as each of them.
pub proof fn lemma_highest_number(found: Seq<(u32, Text)>)
    ensures
        highest(found) is None <==> found.len() == 0,
        highest(found) matches Some(n) ==> {
            &&& exists|i: int| 0 <= i < found.len() && (#[trigger] found[i]).0 == n
            &&& forall|i: int| 0 <= i < found.len() ==> (#[trigger] found[i]).0 <= n
        },
    decreases found.len(),
{
    if found.len() > 0 {
        let front = found.drop_last();
        lemma_highest_number(front);
        assert(found.last() == found[found.len() - 1]);
        assert(forall|i: int| 0 <= i < front.len() ==> front[i] == #[trigger] found[i]);
        if let Some(n) = highest(front) {
            let i = choose|i: int| 0 <= i < front.len() && (#[trigger] front[i]).0 == n;
            assert(found[i].0 == n);
        }
    }
}

} // verus!
