//! Which tracks are being downloaded and which exist on disk, and where downloads are kept.

use std::collections::HashSet;

use vstd::prelude::*;

use crate::error::Result;
use crate::library::{Library, LibraryView, Track, TrackView};
use crate::text::{
    ascii_lowercase, ascii_lowercase_chars, ascii_upper, ascii_uppercase, ascii_uppercase_chars,
    chars_of, contains_chars, contains_text, control, decimal2, extend_chars, is_control, join,
    join_chars, nonempty, push_decimal2, split, string_of, trim, trim_chars, trim_end,
    trim_end_chars, trim_start, words, words_of, CharSet,
};
use vstd::slice::slice_subrange;

verus! {

broadcast use {vstd::std_specs::hash::group_hash_axioms, vstd::seq_lib::group_seq_properties};

/// The number of characters that a sanitized path component holds at most.
pub const MAX_COMPONENT_CHARS: usize = 120;

#[derive(Clone, Copy, Debug, PartialEq, Eq, Structural)]
pub enum DownloadStatus {
    Running,
    Finished,
    /// The failure message is shown when the download completes; only the outcome is kept here.
    Failed,
}

#[derive(Clone, Copy, Debug, PartialEq, Eq, Structural)]
pub struct DownloadTask {
    pub id: u64,
    pub track_id: u64,
    pub status: DownloadStatus,
}

/// Tracks running downloads and which tracks exist on disk.
///
/// The index of local files is kept in memory and updated on the events that can change it, so
/// that rendering never has to touch the filesystem.
#[derive(Debug)]
pub struct DownloadManager {
    tasks: Vec<DownloadTask>,
    local: HashSet<u64>,
    next_id: u64,
}

pub struct DownloadsView {
    pub tasks: Seq<DownloadTask>,
    pub local: Set<u64>,
    pub next_id: u64,
}

impl DownloadsView {
    /// Task ids are distinct and were all handed out.
    pub open spec fn wf(self) -> bool {
        &&& forall|i: int| 0 <= i < self.tasks.len() ==> (#[trigger] self.tasks[i]).id <= self.next_id
        &&& forall|i: int, j: int|
            0 <= i < j < self.tasks.len() ==> (#[trigger] self.tasks[i]).id
                != (#[trigger] self.tasks[j]).id
    }

    pub open spec fn has_task(self, track_id: u64, status: DownloadStatus) -> bool {
        exists|i: int|
            0 <= i < self.tasks.len() && (#[trigger] self.tasks[i]).track_id == track_id
                && self.tasks[i].status == status
    }

    pub open spec fn running(self, track_id: u64) -> bool {
        self.has_task(track_id, DownloadStatus::Running)
    }

    /// The task with the given id, by its index.
    pub open spec fn is_task(self, i: int, task_id: u64) -> bool {
        0 <= i < self.tasks.len() && self.tasks[i].id == task_id
    }

    pub open spec fn knows(self, task_id: u64) -> bool {
        exists|i: int| self.is_task(i, task_id)
    }

    pub open spec fn index_of(self, task_id: u64) -> int {
        choose|i: int| self.is_task(i, task_id)
    }

    pub open spec fn begun(self, track_id: u64) -> DownloadsView {
        let id = (self.next_id + 1) as u64;
        DownloadsView {
            tasks: self.tasks.push(DownloadTask { id, track_id, status: DownloadStatus::Running }),
            next_id: id,
            ..self
        }
    }

    /// The outcome of a task is recorded; an unknown task changes nothing.
    pub open spec fn completed(self, task_id: u64, succeeded: bool) -> DownloadsView {
        if self.knows(task_id) {
            let i = self.index_of(task_id);
            let task = self.tasks[i];
            DownloadsView {
                tasks: self.tasks.update(
                    i,
                    DownloadTask {
                        status: if succeeded {
                            DownloadStatus::Finished
                        } else {
                            DownloadStatus::Failed
                        },
                        ..task
                    },
                ),
                local: if succeeded {
                    self.local.insert(task.track_id)
                } else {
                    self.local
                },
                ..self
            }
        } else {
            self
        }
    }

    pub open spec fn label(self, track_id: u64) -> Seq<char> {
        if self.running(track_id) {
            "downloading"@
        } else if self.local.contains(track_id) {
            "local"@
        } else if self.has_task(track_id, DownloadStatus::Failed) {
            "failed"@
        } else {
            ""@
        }
    }
}

/// The number of running tasks.
pub open spec fn running_tasks(tasks: Seq<DownloadTask>) -> nat
    decreases tasks.len(),
{
    if tasks.len() == 0 {
        0
    } else {
        running_tasks(tasks.drop_last()) + if tasks.last().status == DownloadStatus::Running {
            1nat
        } else {
            0nat
        }
    }
}

/// The tracks whose file was found.
pub open spec fn found_tracks(scanned: Seq<(u64, bool)>) -> Set<u64>
    decreases scanned.len(),
{
    if scanned.len() == 0 {
        Set::empty()
    } else if scanned.last().1 {
        found_tracks(scanned.drop_last()).insert(scanned.last().0)
    } else {
        found_tracks(scanned.drop_last())
    }
}

impl View for DownloadManager {
    type V = DownloadsView;

    closed spec fn view(&self) -> DownloadsView {
        DownloadsView { tasks: self.tasks@, local: self.local@, next_id: self.next_id }
    }
}

impl Default for DownloadManager {
    fn default() -> (res: DownloadManager)
        ensures
            res.wf(),
            res@ == (DownloadsView { tasks: Seq::empty(), local: Set::empty(), next_id: 0 }),
    {
        DownloadManager { tasks: Vec::new(), local: HashSet::new(), next_id: 0 }
    }
}

impl DownloadManager {
    pub open spec fn wf(self) -> bool {
        self@.wf()
    }

    /// Replaces the index of local files by what a scan of the disk found.
    pub fn rescan(&mut self, scanned: &Vec<(u64, bool)>)
        ensures
            final(self)@ == (DownloadsView { local: found_tracks(scanned@), ..old(self)@ }),
    {
        let mut local: HashSet<u64> = HashSet::new();
        let mut i: usize = 0;
        assert(scanned@.take(0) =~= Seq::<(u64, bool)>::empty());
        while i < scanned.len()
            invariant
                i <= scanned@.len(),
                local@ == found_tracks(scanned@.take(i as int)),
            decreases scanned@.len() - i,
        {
            assert(scanned@.take(i + 1).drop_last() =~= scanned@.take(i as int));
            assert(scanned@.take(i + 1).last() == scanned@[i as int]);
            if scanned[i].1 {
                local.insert(scanned[i].0);
            }
            i = i + 1;
        }
        assert(scanned@.take(i as int) =~= scanned@);
        self.local = local;
    }

    /// Begins a download. Gives the id of its task.
    pub fn begin(&mut self, track_id: u64) -> (res: u64)
        requires
            old(self).wf(),
            old(self)@.next_id < u64::MAX,
        ensures
            final(self).wf(),
            final(self)@ == old(self)@.begun(track_id),
            res == final(self)@.next_id,
    {
        self.next_id = self.next_id + 1;
        self.tasks.push(
            DownloadTask { id: self.next_id, track_id, status: DownloadStatus::Running },
        );
        self.next_id
    }

    /// Records the outcome of a task. Gives `false` when the task is unknown, as after a logout.
    pub fn complete<T>(&mut self, task_id: u64, result: &Result<T>) -> (res: bool)
        requires
            old(self).wf(),
        ensures
            final(self).wf(),
            res == old(self)@.knows(task_id),
            final(self)@ == old(self)@.completed(task_id, result is Ok),
    {
        let mut i: usize = 0;
        while i < self.tasks.len()
            invariant
                *self == *old(self),
                self.wf(),
                i <= self.tasks@.len(),
                forall|k: int| 0 <= k < i ==> (#[trigger] self.tasks@[k]).id != task_id,
            decreases self.tasks@.len() - i,
        {
            if self.tasks[i].id == task_id {
                let ghost before = self@;
                proof {
                    assert(before.is_task(i as int, task_id));
                    let chosen = before.index_of(task_id);
                    assert(before.is_task(chosen, task_id));
                    assert(chosen == i);
                }
                let task: DownloadTask = self.tasks[i];
                match result {
                    Ok(_) => {
                        self.local.insert(task.track_id);
                        self.tasks.set(
                            i,
                            DownloadTask {
                                id: task.id,
                                track_id: task.track_id,
                                status: DownloadStatus::Finished,
                            },
                        );
                    },
                    Err(_) => {
                        self.tasks.set(
                            i,
                            DownloadTask {
                                id: task.id,
                                track_id: task.track_id,
                                status: DownloadStatus::Failed,
                            },
                        );
                    },
                }
                assert(self@.tasks =~= before.completed(task_id, result is Ok).tasks);
                return true;
            }
            i = i + 1;
        }
        proof {
            assert(!self@.knows(task_id)) by {
                if self@.knows(task_id) {
                    let k = self@.index_of(task_id);
                    assert(self@.is_task(k, task_id));
                    assert(self.tasks@[k].id == task_id);
                }
            }
        }
        false
    }

    fn any_task(&self, track_id: u64, status: DownloadStatus) -> (res: bool)
        ensures
            res == self@.has_task(track_id, status),
    {
        let mut i: usize = 0;
        while i < self.tasks.len()
            invariant
                i <= self.tasks@.len(),
                forall|k: int|
                    0 <= k < i ==> !((#[trigger] self.tasks@[k]).track_id == track_id
                        && self.tasks@[k].status == status),
            decreases self.tasks@.len() - i,
        {
            if self.tasks[i].track_id == track_id && self.tasks[i].status == status {
                return true;
            }
            i = i + 1;
        }
        false
    }

    /// Whether the track is being downloaded.
    pub fn is_running(&self, track_id: u64) -> (res: bool)
        ensures
            res == self@.running(track_id),
    {
        self.any_task(track_id, DownloadStatus::Running)
    }

    /// Whether the track exists on disk.
    pub fn is_local(&self, track_id: u64) -> (res: bool)
        ensures
            res == self@.local.contains(track_id),
    {
        self.local.contains(&track_id)
    }

    /// Records that the file of the track was deleted.
    pub fn mark_not_local(&mut self, track_id: u64)
        ensures
            final(self)@ == (DownloadsView {
                local: old(self)@.local.remove(track_id),
                ..old(self)@
            }),
    {
        self.local.remove(&track_id);
    }

    /// The id of the task that began last, or zero.
    pub fn last_id(&self) -> (res: u64)
        ensures
            res == self@.next_id,
    {
        self.next_id
    }

    /// The number of running downloads.
    pub fn running_count(&self) -> (res: usize)
        ensures
            res == running_tasks(self@.tasks),
    {
        let mut count: usize = 0;
        let mut i: usize = 0;
        assert(self.tasks@.take(0) =~= Seq::<DownloadTask>::empty());
        while i < self.tasks.len()
            invariant
                i <= self.tasks@.len(),
                count == running_tasks(self.tasks@.take(i as int)),
                count <= i,
            decreases self.tasks@.len() - i,
        {
            assert(self.tasks@.take(i + 1).drop_last() =~= self.tasks@.take(i as int));
            assert(self.tasks@.take(i + 1).last() == self.tasks@[i as int]);
            if self.tasks[i].status == DownloadStatus::Running {
                count = count + 1;
            }
            i = i + 1;
        }
        assert(self.tasks@.take(i as int) =~= self.tasks@);
        count
    }

    /// The number of tracks that exist on disk.
    pub fn local_count(&self) -> (res: usize)
        ensures
            res == self@.local.len(),
    {
        self.local.len()
    }

    /// How the track is shown to be stored.
    pub fn storage_label(&self, track_id: u64) -> (res: &'static str)
        ensures
            res@ == self@.label(track_id),
    {
        if self.is_running(track_id) {
            "downloading"
        } else if self.is_local(track_id) {
            "local"
        } else if self.any_task(track_id, DownloadStatus::Failed) {
            "failed"
        } else {
            ""
        }
    }

    /// Forgets every task and every local file. Task ids are not handed out again.
    pub fn clear(&mut self)
        ensures
            final(self).wf(),
            final(self)@ == (DownloadsView {
                tasks: Seq::empty(),
                local: Set::empty(),
                next_id: old(self)@.next_id,
            }),
    {
        self.tasks.clear();
        self.local.clear();
    }
}

/// A track is shown as being downloaded from the moment its download begins.
pub proof fn law_begun_download_is_running(downloads: DownloadsView, track_id: u64)
    requires
        downloads.next_id < u64::MAX,
    ensures
        downloads.begun(track_id).running(track_id),
        downloads.begun(track_id).label(track_id) == "downloading"@,
{
    let after = downloads.begun(track_id);
    assert(after.tasks[downloads.tasks.len() as int].track_id == track_id);
}

/// A download that begins and then succeeds leaves its track on disk and not running, unless
/// another download of the track is running; one that fails does not touch what is on disk.
pub proof fn law_completed_download(downloads: DownloadsView, track_id: u64)
    requires
        downloads.wf(),
        downloads.next_id < u64::MAX,
    ensures
        ({
            let begun = downloads.begun(track_id);
            let finished = begun.completed(begun.next_id, true);
            let failed = begun.completed(begun.next_id, false);
            &&& begun.knows(begun.next_id)
            &&& finished.local == downloads.local.insert(track_id)
            &&& finished.running(track_id) == downloads.running(track_id)
            &&& failed.local == downloads.local
            &&& failed.has_task(track_id, DownloadStatus::Failed)
            &&& failed.running(track_id) == downloads.running(track_id)
        }),
{
    let begun = downloads.begun(track_id);
    let last = downloads.tasks.len() as int;
    assert(begun.is_task(last, begun.next_id));
    let chosen = begun.index_of(begun.next_id);
    assert(begun.is_task(chosen, begun.next_id));
    assert(chosen == last);
    let finished = begun.completed(begun.next_id, true);
    let failed = begun.completed(begun.next_id, false);
    assert(failed.tasks[last].status == DownloadStatus::Failed);
    assert(failed.tasks[last].track_id == track_id);
    assert forall|i: int| 0 <= i < last implies #[trigger] downloads.tasks[i] == finished.tasks[i]
        && downloads.tasks[i] == failed.tasks[i] by {}
    assert(finished.running(track_id) == downloads.running(track_id)) by {
        if finished.running(track_id) {
            let i = choose|i: int|
                0 <= i < finished.tasks.len() && (#[trigger] finished.tasks[i]).track_id
                    == track_id && finished.tasks[i].status == DownloadStatus::Running;
            assert(i != last);
            assert(downloads.tasks[i] == finished.tasks[i]);
        }
        if downloads.running(track_id) {
            let i = choose|i: int|
                0 <= i < downloads.tasks.len() && (#[trigger] downloads.tasks[i]).track_id
                    == track_id && downloads.tasks[i].status == DownloadStatus::Running;
            assert(finished.tasks[i] == downloads.tasks[i]);
        }
    }
    assert(failed.running(track_id) == downloads.running(track_id)) by {
        if failed.running(track_id) {
            let i = choose|i: int|
                0 <= i < failed.tasks.len() && (#[trigger] failed.tasks[i]).track_id == track_id
                    && failed.tasks[i].status == DownloadStatus::Running;
            assert(i != last);
            assert(downloads.tasks[i] == failed.tasks[i]);
        }
        if downloads.running(track_id) {
            let i = choose|i: int|
                0 <= i < downloads.tasks.len() && (#[trigger] downloads.tasks[i]).track_id
                    == track_id && downloads.tasks[i].status == DownloadStatus::Running;
            assert(failed.tasks[i] == downloads.tasks[i]);
        }
    }
}

/// A download that completes after everything was cleared is not recorded.
pub proof fn law_cleared_downloads_are_unknown(next_id: u64, task_id: u64, succeeded: bool)
    ensures
        ({
            let cleared = DownloadsView { tasks: Seq::empty(), local: Set::empty(), next_id };
            !cleared.knows(task_id) && cleared.completed(task_id, succeeded) == cleared
        }),
{
}

/// Characters that do not occur in a path component.
pub open spec fn forbidden(c: char) -> bool {
    control(c) || c == '<' || c == '>' || c == ':' || c == '"' || c == '/' || c == '\\' || c == '|'
        || c == '?' || c == '*'
}

fn is_forbidden(c: char) -> (res: bool)
    ensures
        res == forbidden(c),
{
    is_control(c) || c == '<' || c == '>' || c == ':' || c == '"' || c == '/' || c == '\\' || c
        == '|' || c == '?' || c == '*'
}

/// `s` with every forbidden character replaced by an underscore.
pub open spec fn masked(s: Seq<char>) -> Seq<char> {
    Seq::new(
        s.len(),
        |i: int|
            if forbidden(s[i]) {
                '_'
            } else {
                s[i]
            },
    )
}

/// The words of `s` with single spaces between them, without spaces and full stops at the ends;
/// an underscore where nothing is left.
pub open spec fn tidied(s: Seq<char>) -> Seq<char> {
    let text = trim(join(words(s), seq![' ']), CharSet::SpaceOrDot);
    if text.len() == 0 {
        seq!['_']
    } else {
        text
    }
}

/// The names that some platforms reserve for devices, in any letter case.
pub open spec fn reserved(s: Seq<char>) -> bool {
    let upper = ascii_uppercase(s);
    ||| upper == seq!['C', 'O', 'N']
    ||| upper == seq!['P', 'R', 'N']
    ||| upper == seq!['A', 'U', 'X']
    ||| upper == seq!['N', 'U', 'L']
    ||| upper.len() == 4 && (upper.take(3) == seq!['C', 'O', 'M'] || upper.take(3) == seq![
        'L',
        'P',
        'T',
    ]) && '1' <= upper[3] <= '9'
}

/// `s` cut to the length of a component, without the spaces and full stops that then stand at the
/// end.
pub open spec fn shortened(s: Seq<char>) -> Seq<char> {
    let cut = if s.len() > MAX_COMPONENT_CHARS {
        s.take(MAX_COMPONENT_CHARS as int)
    } else {
        s
    };
    trim_end(cut, CharSet::SpaceOrDot)
}

/// The path component that stands for `s`. Whether it is a reserved name is asked of what is left
/// after cutting, so that no cut makes one.
pub open spec fn sanitized(s: Seq<char>) -> Seq<char> {
    let name = shortened(tidied(masked(s)));
    if reserved(name) {
        name.push('_')
    } else {
        name
    }
}

fn is_reserved(name: &[char]) -> (res: bool)
    ensures
        res == reserved(name@),
{
    let upper = ascii_uppercase_chars(name);
    if upper.len() == 3 {
        proof {
            assert(upper@ =~= seq![upper@[0], upper@[1], upper@[2]]);
            let con = seq!['C', 'O', 'N'];
            let prn = seq!['P', 'R', 'N'];
            let aux = seq!['A', 'U', 'X'];
            let nul = seq!['N', 'U', 'L'];
            assert(con[0] == 'C' && con[1] == 'O' && con[2] == 'N');
            assert(prn[0] == 'P' && prn[1] == 'R' && prn[2] == 'N');
            assert(aux[0] == 'A' && aux[1] == 'U' && aux[2] == 'X');
            assert(nul[0] == 'N' && nul[1] == 'U' && nul[2] == 'L');
        }
        (upper[0] == 'C' && upper[1] == 'O' && upper[2] == 'N') || (upper[0] == 'P' && upper[1]
            == 'R' && upper[2] == 'N') || (upper[0] == 'A' && upper[1] == 'U' && upper[2] == 'X')
            || (upper[0] == 'N' && upper[1] == 'U' && upper[2] == 'L')
    } else if upper.len() == 4 {
        proof {
            assert(upper@.take(3) =~= seq![upper@[0], upper@[1], upper@[2]]);
            let com = seq!['C', 'O', 'M'];
            let lpt = seq!['L', 'P', 'T'];
            assert(com[0] == 'C' && com[1] == 'O' && com[2] == 'M');
            assert(lpt[0] == 'L' && lpt[1] == 'P' && lpt[2] == 'T');
            assert(upper@.take(3)[0] == upper@[0]);
            assert(upper@.take(3)[1] == upper@[1]);
            assert(upper@.take(3)[2] == upper@[2]);
            assert(upper@.len() != 3);
        }
        ((upper[0] == 'C' && upper[1] == 'O' && upper[2] == 'M') || (upper[0] == 'L' && upper[1]
            == 'P' && upper[2] == 'T')) && '1' <= upper[3] && upper[3] <= '9'
    } else {
        false
    }
}

/// Makes a text safe to use as a single path component on every platform.
pub fn sanitize_component(input: &str) -> (res: String)
    ensures
        res@ == sanitized(input@),
{
    let chars = chars_of(input);
    let mut plain: Vec<char> = Vec::new();
    let mut i: usize = 0;
    while i < chars.len()
        invariant
            i <= chars@.len(),
            plain@ =~= masked(chars@).take(i as int),
        decreases chars@.len() - i,
    {
        if is_forbidden(chars[i]) {
            plain.push('_');
        } else {
            plain.push(chars[i]);
        }
        i = i + 1;
    }
    assert(plain@ =~= masked(chars@));
    let joined = join_chars(&words_of(plain.as_slice()), ' ');
    let trimmed = trim_chars(joined.as_slice(), CharSet::SpaceOrDot);
    let mut tidy: Vec<char> = Vec::new();
    if trimmed.len() == 0 {
        tidy.push('_');
    } else {
        extend_chars(&mut tidy, trimmed);
    }
    assert(tidy@ =~= tidied(masked(input@)));
    let mut cut: &[char] = tidy.as_slice();
    if cut.len() > MAX_COMPONENT_CHARS {
        cut = slice_subrange(cut, 0, MAX_COMPONENT_CHARS);
        assert(cut@ =~= tidy@.take(MAX_COMPONENT_CHARS as int));
    }
    let short = trim_end_chars(cut, CharSet::SpaceOrDot);
    assert(short@ == shortened(tidied(masked(input@))));
    let mut name = string_of(short);
    if is_reserved(short) {
        name.push('_');
    }
    name
}

/// Every character of `s` is one of `from` or a space.
spec fn drawn_from(s: Seq<char>, from: Seq<char>) -> bool {
    forall|i: int| 0 <= i < s.len() ==> #[trigger] s[i] == ' ' || from.contains(s[i])
}

/// The parts of a split text hold only characters of the text that are not in the set.
proof fn lemma_split_drawn(s: Seq<char>, set: CharSet)
    ensures
        split(s, set).len() >= 1,
        forall|i: int, j: int|
            0 <= i < split(s, set).len() && 0 <= j < split(s, set)[i].len() ==> s.contains(
                #[trigger] split(s, set)[i][j],
            ) && !set.spec_has(split(s, set)[i][j]),
    decreases s.len(),
{
    if s.len() > 0 {
        let before = split(s.drop_last(), set);
        let parts = split(s, set);
        lemma_split_drawn(s.drop_last(), set);
        assert forall|i: int, j: int| 0 <= i < parts.len() && 0 <= j < parts[i].len() implies
            s.contains(#[trigger] parts[i][j]) && !set.spec_has(parts[i][j]) by {
            if set.spec_has(s.last()) {
                if i < before.len() {
                    assert(parts[i] == before[i]);
                    let c = before[i][j];
                    assert(s.drop_last().contains(c));
                    let k = choose|k: int| 0 <= k < s.drop_last().len() && s.drop_last()[k] == c;
                    assert(s[k] == c);
                }
            } else if i == before.len() - 1 && j == before.last().len() {
                assert(parts[i][j] == s.last());
                assert(s[s.len() - 1] == s.last());
            } else {
                assert(parts[i][j] == before[i][j]);
                let c = before[i][j];
                assert(s.drop_last().contains(c));
                let k = choose|k: int| 0 <= k < s.drop_last().len() && s.drop_last()[k] == c;
                assert(s[k] == c);
            }
        }
    }
}

/// The parts that are kept are among the parts.
proof fn lemma_nonempty_among(parts: Seq<Seq<char>>)
    ensures
        forall|i: int|
            0 <= i < nonempty(parts).len() ==> parts.contains(#[trigger] nonempty(parts)[i]),
    decreases parts.len(),
{
    if parts.len() > 0 {
        let kept = nonempty(parts.drop_last());
        lemma_nonempty_among(parts.drop_last());
        assert forall|i: int| 0 <= i < nonempty(parts).len() implies parts.contains(
            #[trigger] nonempty(parts)[i],
        ) by {
            if i < kept.len() {
                assert(nonempty(parts)[i] == kept[i]);
                let k = choose|k: int|
                    0 <= k < parts.drop_last().len() && parts.drop_last()[k] == kept[i];
                assert(parts[k] == kept[i]);
            } else {
                assert(parts[parts.len() - 1] == nonempty(parts)[i]);
            }
        }
    }
}

/// Joined parts hold spaces and the characters of the parts.
proof fn lemma_join_drawn(parts: Seq<Seq<char>>, from: Seq<char>)
    requires
        forall|i: int| 0 <= i < parts.len() ==> drawn_from(#[trigger] parts[i], from),
    ensures
        drawn_from(join(parts, seq![' ']), from),
    decreases parts.len(),
{
    if parts.len() > 1 {
        let before = parts.drop_last();
        assert forall|i: int| 0 <= i < before.len() implies drawn_from(
            #[trigger] before[i],
            from,
        ) by {
            assert(before[i] == parts[i]);
        }
        lemma_join_drawn(before, from);
        let head = join(before, seq![' ']);
        let last = parts[parts.len() - 1];
        assert(drawn_from(last, from));
        let all = join(parts, seq![' ']);
        assert(all == head + seq![' '] + last);
        assert forall|i: int| 0 <= i < all.len() implies #[trigger] all[i] == ' ' || from.contains(
            all[i],
        ) by {
            if i < head.len() {
                assert(all[i] == head[i]);
            } else if i > head.len() {
                assert(all[i] == last[i - head.len() - 1]);
            }
        }
    } else if parts.len() == 1 {
        assert(drawn_from(parts[0], from));
    }
}

proof fn lemma_trim_start_drawn(s: Seq<char>, set: CharSet, from: Seq<char>)
    requires
        drawn_from(s, from),
    ensures
        drawn_from(trim_start(s, set), from),
        trim_start(s, set).len() > 0 ==> !set.spec_has(trim_start(s, set)[0]),
    decreases s.len(),
{
    if s.len() > 0 && set.spec_has(s[0]) {
        assert forall|i: int| 0 <= i < s.drop_first().len() implies #[trigger] s.drop_first()[i]
            == ' ' || from.contains(s.drop_first()[i]) by {
            assert(s.drop_first()[i] == s[i + 1]);
        }
        lemma_trim_start_drawn(s.drop_first(), set, from);
    }
}

proof fn lemma_trim_end_drawn(s: Seq<char>, set: CharSet, from: Seq<char>)
    requires
        drawn_from(s, from),
        s.len() > 0 ==> !set.spec_has(s[0]),
    ensures
        drawn_from(trim_end(s, set), from),
        s.len() > 0 ==> 0 < trim_end(s, set).len() <= s.len(),
        trim_end(s, set).len() > 0 ==> !set.spec_has(trim_end(s, set)[0]),
        trim_end(s, set).len() > 0 ==> !set.spec_has(trim_end(s, set).last()),
    decreases s.len(),
{
    if s.len() > 0 && set.spec_has(s.last()) {
        assert(drawn_from(s.drop_last(), from)) by {
            assert forall|i: int| 0 <= i < s.drop_last().len() implies #[trigger] s.drop_last()[i]
                == ' ' || from.contains(s.drop_last()[i]) by {
                assert(s.drop_last()[i] == s[i]);
            }
        }
        lemma_trim_end_drawn(s.drop_last(), set, from);
    }
}

/// What tidying keeps: characters of the text and single spaces, and no space or full stop at
/// the ends.
proof fn lemma_tidied(s: Seq<char>)
    ensures
        tidied(s).len() > 0,
        !CharSet::SpaceOrDot.spec_has(tidied(s)[0]),
        !CharSet::SpaceOrDot.spec_has(tidied(s).last()),
        forall|i: int|
            0 <= i < tidied(s).len() ==> #[trigger] tidied(s)[i] == ' ' || tidied(s)[i] == '_'
                || (s.contains(tidied(s)[i])),
{
    let parts = split(s, CharSet::WhiteSpace);
    lemma_split_drawn(s, CharSet::WhiteSpace);
    lemma_nonempty_among(parts);
    assert forall|i: int| 0 <= i < words(s).len() implies drawn_from(#[trigger] words(s)[i], s) by {
        assert(parts.contains(words(s)[i]));
        let k = choose|k: int| 0 <= k < parts.len() && parts[k] == words(s)[i];
        assert forall|j: int| 0 <= j < words(s)[i].len() implies #[trigger] words(s)[i][j] == ' '
            || s.contains(words(s)[i][j]) by {
            assert(words(s)[i][j] == parts[k][j]);
        }
    }
    lemma_join_drawn(words(s), s);
    let joined = join(words(s), seq![' ']);
    lemma_trim_start_drawn(joined, CharSet::SpaceOrDot, s);
    lemma_trim_end_drawn(trim_start(joined, CharSet::SpaceOrDot), CharSet::SpaceOrDot, s);
}

/// A path component that is safe on every platform.
pub open spec fn safe_component(s: Seq<char>) -> bool {
    &&& 0 < s.len() <= MAX_COMPONENT_CHARS
    &&& forall|i: int| 0 <= i < s.len() ==> !forbidden(#[trigger] s[i])
    &&& s[0] != ' ' && s[0] != '.'
    &&& s.last() != ' ' && s.last() != '.'
    &&& !reserved(s)
}

/// Whatever the text, its component is not empty and not too long, holds no separator, control or
/// otherwise forbidden character, neither begins nor ends with a space or a full stop (so it is
/// neither `.` nor `..`), and is no reserved name.
pub proof fn law_sanitized_component_is_safe(s: Seq<char>)
    ensures
        safe_component(sanitized(s)),
{
    let plain = masked(s);
    let tidy = tidied(plain);
    lemma_tidied(plain);
    assert forall|i: int| 0 <= i < tidy.len() implies !forbidden(#[trigger] tidy[i]) by {
        if tidy[i] != ' ' && tidy[i] != '_' {
            assert(plain.contains(tidy[i]));
            let k = choose|k: int| 0 <= k < plain.len() && plain[k] == tidy[i];
            assert(plain[k] == (if forbidden(s[k]) {
                '_'
            } else {
                s[k]
            }));
        }
    }
    let cut = if tidy.len() > MAX_COMPONENT_CHARS {
        tidy.take(MAX_COMPONENT_CHARS as int)
    } else {
        tidy
    };
    assert forall|i: int| 0 <= i < cut.len() implies #[trigger] cut[i] == ' ' || tidy.contains(
        cut[i],
    ) by {
        assert(cut[i] == tidy[i]);
    }
    lemma_trim_end_drawn(cut, CharSet::SpaceOrDot, tidy);
    let short = shortened(tidy);
    assert forall|i: int| 0 <= i < short.len() implies !forbidden(#[trigger] short[i]) by {
        if short[i] != ' ' {
            let k = choose|k: int| 0 <= k < tidy.len() && tidy[k] == short[i];
            assert(!forbidden(tidy[k]));
        }
    }
    if reserved(short) {
        lemma_marked_is_not_reserved(short);
        assert(ascii_uppercase(short).len() <= 4);
        assert(sanitized(s)[0] == short[0]);
    }
}

/// A reserved name with an underscore behind it is not reserved.
proof fn lemma_marked_is_not_reserved(name: Seq<char>)
    requires
        reserved(name),
    ensures
        !reserved(name.push('_')),
{
    let upper = ascii_uppercase(name);
    let marked = ascii_uppercase(name.push('_'));
    assert(upper.len() == 3 || upper.len() == 4);
    assert(marked.len() == upper.len() + 1);
    if marked.len() == 4 {
        assert(marked[3] == ascii_upper('_'));
    }
}

/// The file extension that stands for a media type.
pub open spec fn extension_of(mime: Seq<char>) -> Seq<char> {
    let mime = ascii_lowercase(mime);
    if contains_text(mime, "flac"@) {
        "flac"@
    } else if contains_text(mime, "mp4"@) || contains_text(mime, "m4a"@) || contains_text(
        mime,
        "aac"@,
    ) {
        "m4a"@
    } else if contains_text(mime, "ogg"@) || contains_text(mime, "opus"@) {
        "ogg"@
    } else if contains_text(mime, "wav"@) {
        "wav"@
    } else if contains_text(mime, "mpeg"@) || contains_text(mime, "mp3"@) {
        "mp3"@
    } else {
        "audio"@
    }
}

fn holds(chars: &Vec<char>, needle: &str) -> (res: bool)
    ensures
        res == contains_text(chars@, needle@),
{
    let needle = chars_of(needle);
    contains_chars(chars.as_slice(), needle.as_slice())
}

/// The file extension that stands for a media type.
pub fn extension_from_mime(mime: &str) -> (res: &'static str)
    ensures
        res@ == extension_of(mime@),
{
    let chars = chars_of(mime);
    let mime = ascii_lowercase_chars(chars.as_slice());
    if holds(&mime, "flac") {
        "flac"
    } else if holds(&mime, "mp4") || holds(&mime, "m4a") || holds(&mime, "aac") {
        "m4a"
    } else if holds(&mime, "ogg") || holds(&mime, "opus") {
        "ogg"
    } else if holds(&mime, "wav") {
        "wav"
    } else if holds(&mime, "mpeg") || holds(&mime, "mp3") {
        "mp3"
    } else {
        "audio"
    }
}

/// Where a download is kept, below the download directory.
#[derive(Debug)]
pub struct DownloadPath {
    pub artist: String,
    pub album: String,
    pub file_name: String,
}

pub struct DownloadPathView {
    pub artist: Seq<char>,
    pub album: Seq<char>,
    pub file_name: Seq<char>,
}

impl View for DownloadPath {
    type V = DownloadPathView;

    open spec fn view(&self) -> DownloadPathView {
        DownloadPathView {
            artist: self.artist@,
            album: self.album@,
            file_name: self.file_name@,
        }
    }
}

/// Where the download of a track is kept.
pub open spec fn download_path(library: LibraryView, track: TrackView) -> DownloadPathView {
    let name = sanitized(track.title) + "."@ + extension_of(track.mime_type);
    DownloadPathView {
        artist: sanitized(library.artist_name(track.artist_id)),
        album: sanitized(library.album_name(track.album_id)),
        file_name: if track.track > 0 {
            decimal2(track.track as nat) + " - "@ + name
        } else {
            name
        },
    }
}

/// Where the download of a track is kept, below the download directory: a directory for the
/// artist, in it one for the album, and in it the file.
pub fn build_download_path(library: &Library, track: &Track) -> (res: DownloadPath)
    ensures
        res@ == download_path(library@, track@),
{
    let artist = sanitize_component(library.artist_name(track.artist_id));
    let album = sanitize_component(library.album_name(track.album_id));
    let title = sanitize_component(track.title.as_str());
    let extension = extension_from_mime(track.mime_type.as_str());
    let mut file_name = String::new();
    if track.track > 0 {
        push_decimal2(&mut file_name, track.track as u64);
        file_name.append(" - ");
    }
    file_name.append(title.as_str());
    file_name.append(".");
    file_name.append(extension);
    assert(file_name@ =~= download_path(library@, track@).file_name);
    DownloadPath { artist, album, file_name }
}

/// The tracks of the library, each of them once, with the path at which it would be stored.
pub fn scan_list(library: &Library) -> (res: Vec<(u64, DownloadPath)>)
    ensures
        forall|i: int, j: int|
            0 <= i < j < res@.len() ==> (#[trigger] res@[i]).0 != (#[trigger] res@[j]).0,
        forall|i: int|
            0 <= i < res@.len() ==> library@.tracks.dom().contains((#[trigger] res@[i]).0)
                && res@[i].1@ == download_path(library@, library@.tracks[res@[i].0]),
        forall|id: u64| #[trigger]
            library@.tracks.dom().contains(id) ==> exists|i: int|
                0 <= i < res@.len() && (#[trigger] res@[i]).0 == id,
{
    broadcast use vstd::std_specs::btree::group_btree_axioms;
    broadcast use crate::library::lemma_take_all;

    let mut out: Vec<(u64, DownloadPath)> = Vec::new();
    for key in it: library.tracks.keys()
        invariant
            it.seq().no_duplicates(),
            it.seq().unref().to_set() == library.tracks@.dom(),
            out@.len() == it.index(),
            forall|i: int, j: int|
                0 <= i < j < out@.len() ==> (#[trigger] out@[i]).0 != (#[trigger] out@[j]).0,
            forall|i: int|
                0 <= i < out@.len() ==> library@.tracks.dom().contains((#[trigger] out@[i]).0)
                    && out@[i].1@ == download_path(library@, library@.tracks[out@[i].0]),
            forall|i: int| 0 <= i < out@.len() ==> (#[trigger] out@[i]).0 == it.seq().unref()[i],
            it.seq().unref().take(it.seq().unref().len() as int).to_set() == library.tracks@.dom(),
            forall|id: u64| #[trigger]
                it.seq().unref().take(it.index()).contains(id) ==> exists|i: int|
                    0 <= i < out@.len() && (#[trigger] out@[i]).0 == id,
    {
        let id: u64 = *key;
        let ghost all = it.seq().unref();
        let ghost before = out@;
        assert(all[it.index()] == id);
        assert(all.to_set().contains(id));
        if let Some(track) = library.tracks.get(&id) {
            assert(library@.tracks[id] == track@);
            let path = build_download_path(library, track);
            out.push((id, path));
        }
        proof {
            assert forall|i: int| 0 <= i < before.len() implies (#[trigger] out@[i]).0 != id by {
                assert(out@[i] == before[i]);
                assert(*it.seq()[i] == all[i]);
                assert(*it.seq()[it.index()] == id);
                assert(it.seq()[i] != it.seq()[it.index()]);
            }
            assert(all.take(it.index() + 1) =~= all.take(it.index()).push(id));
            assert forall|x: u64| #[trigger]
                all.take(it.index() + 1).contains(x) implies exists|i: int|
                0 <= i < out@.len() && (#[trigger] out@[i]).0 == x by {
                if x == id {
                    assert(out@[before.len() as int].0 == x);
                } else {
                    assert(all.take(it.index()).contains(x));
                    let i = choose|i: int| 0 <= i < before.len() && (#[trigger] before[i]).0 == x;
                    assert(out@[i] == before[i]);
                }
            }
        }
    }
    out
}

/// The name of the file that a download is written to until it is complete.
pub fn part_file_name(file_name: Option<&str>) -> (res: String)
    ensures
        res@ == (match file_name {
            Some(name) => name@,
            None => "download"@,
        }) + ".part"@,
{
    let mut name = match file_name {
        Some(name) => name.to_owned(),
        None => "download".to_owned(),
    };
    name.append(".part");
    name
}

/// The names of a path's directories, from the outermost on.
pub open spec fn path_view(path: Seq<Vec<u8>>) -> Seq<Seq<u8>> {
    Seq::new(path.len(), |i: int| path[i]@)
}

/// The directory lies below the root.
pub open spec fn below(dir: Seq<Seq<u8>>, root: Seq<Seq<u8>>) -> bool {
    root.len() < dir.len() && dir.take(root.len() as int) == root
}

fn same_bytes(a: &Vec<u8>, b: &Vec<u8>) -> (res: bool)
    ensures
        res == (a@ == b@),
{
    if a.len() != b.len() {
        return false;
    }
    let mut i: usize = 0;
    while i < a.len()
        invariant
            a@.len() == b@.len(),
            i <= a@.len(),
            forall|j: int| 0 <= j < i ==> a@[j] == b@[j],
        decreases a@.len() - i,
    {
        if a[i] != b[i] {
            return false;
        }
        i = i + 1;
    }
    assert(a@ =~= b@);
    true
}

/// Whether an empty directory may be removed after one of its files was deleted: it must lie
/// below the download root, and is never the root itself.
pub fn may_remove_dir(dir: &Vec<Vec<u8>>, root: &Vec<Vec<u8>>) -> (res: bool)
    ensures
        res == below(path_view(dir@), path_view(root@)),
{
    if dir.len() <= root.len() {
        return false;
    }
    let ghost target = path_view(root@);
    let ghost start = path_view(dir@).take(target.len() as int);
    let mut i: usize = 0;
    while i < root.len()
        invariant
            root@.len() < dir@.len(),
            target == path_view(root@),
            start == path_view(dir@).take(target.len() as int),
            i <= root@.len(),
            forall|k: int| 0 <= k < i ==> start[k] == target[k],
        decreases root@.len() - i,
    {
        assert(start[i as int] == dir@[i as int]@);
        assert(target[i as int] == root@[i as int]@);
        if !same_bytes(&dir[i], &root[i]) {
            return false;
        }
        i = i + 1;
    }
    assert(start =~= target);
    true
}

/// Walking up from a directory, removal stops at the download root at the latest: no step leaves
/// it, and the root and what holds it are never removed.
pub proof fn law_removal_stays_below_root(dir: Seq<Seq<u8>>, root: Seq<Seq<u8>>)
    ensures
        !below(root, root),
        below(dir, root) ==> dir.drop_last() == root || below(dir.drop_last(), root),
        !below(dir, root) && dir.len() > 0 ==> !below(dir.drop_last(), root),
        below(root, dir) ==> !below(dir, root),
{
    if below(dir, root) {
        if dir.len() == root.len() + 1 {
            assert(dir.drop_last() =~= root);
        } else {
            assert(dir.drop_last().take(root.len() as int) =~= dir.take(root.len() as int));
        }
    } else if dir.len() > 0 && below(dir.drop_last(), root) {
        assert(dir.drop_last().take(root.len() as int) =~= dir.take(root.len() as int));
    }
}

} // verus!
