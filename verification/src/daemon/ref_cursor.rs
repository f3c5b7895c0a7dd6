//! Following the refs of a family of worktrees through their reflogs.
//!
//! A cursor remembers, for each reflog, the offset up to which its records have
//! been told, and the stack of stashes. Telling a command looks behind these
//! offsets for the records that the command left, and moves the offsets on.

use crate::daemon::domain::{
    Confidence, FamilyKey, FamilyState, NormalizedCommand, RefChange, RefChangeView,
};
use crate::daemon::ref_args::{
    BranchCommandSpec, BranchCommandView, UpdateRefView, args_start, branch_command_of,
    commit_reflog_messages, commit_subject_of, parse_branch_command_spec, parse_update_ref_spec,
    reflog_messages_of, update_ref_of, without_command, zero_oid, zero_oid_of,
};
use crate::daemon::reflog::{
    RecordView, lemma_records_behind_offset, read_reflog_records, records_of, start_of,
};
use crate::error::GitAiError;
use crate::file_tree::FileTree;
use crate::git::repo_state::{
    all_zeros, git_dir_for_worktree, git_dir_of, is_hex, is_oid, is_real_oid, is_valid_git_oid,
    is_valid_non_zero_oid, opt_str, stash_index, stash_index_of,
};
use crate::model::{first_where, lemma_views_push, opt_view, views};
use crate::paths::{join, joined};
use crate::text::{
    concat, concat3, has_prefix, lemma_texts_push, list_contains, replace_char, replaced,
    split_once, split_once_of, starts_with, str_eq, strip_prefix, texts,
};
use crate::text_map::{TextMap, text_values};
use crate::text_order::{insert_sorted, lemma_with_sorted, strictly_sorted, with_sorted};
use vstd::prelude::*;
use vstd::string::*;

verus! {

// ------------------------------------------------------------------- the model

/// Where the telling of a family's reflogs stands.
pub struct RefCursor {
    pub family: FamilyKey,
    pub offsets: TextMap<u64>,
    pub stash_stack: Vec<String>,
    /// What went wrong with the command that is being told.
    pub failure: Option<String>,
}

/// The offsets, by reflog, the stashes, newest first, and what went wrong with the command
/// that is being told. Behind a failure nothing more is read.
#[verifier::ext_equal]
pub struct CursorView {
    pub offsets: Map<Seq<char>, u64>,
    pub stash: Seq<Seq<char>>,
    pub failure: Option<Seq<char>>,
}

impl View for RefCursor {
    type V = CursorView;

    open spec fn view(&self) -> CursorView {
        CursorView {
            offsets: self.offsets@,
            stash: texts(self.stash_stack@),
            failure: opt_view(self.failure),
        }
    }
}

/// What a command is told from: the files of the repository, the canonical paths
/// of git directories, and the names of the working logs of the worktree.
pub struct RefLogs {
    pub files: FileTree,
    pub canonical: TextMap<String>,
    pub working_logs: Vec<String>,
}

/// A record of a reflog that moved its ref.
pub struct CursorEntry {
    pub key: String,
    pub reference: String,
    pub old: String,
    pub new: String,
    pub message: String,
    pub end_offset: u64,
}

/// The texts and the offset of a record that moved its ref.
pub struct EntryView {
    pub key: Seq<char>,
    pub reference: Seq<char>,
    pub old: Seq<char>,
    pub new: Seq<char>,
    pub message: Seq<char>,
    pub end_offset: u64,
}

impl View for CursorEntry {
    type V = EntryView;

    open spec fn view(&self) -> EntryView {
        EntryView {
            key: self.key@,
            reference: self.reference@,
            old: self.old@,
            new: self.new@,
            message: self.message@,
            end_offset: self.end_offset,
        }
    }
}

/// The change that a record tells.
pub open spec fn change_of(e: EntryView) -> RefChangeView {
    RefChangeView { reference: e.reference, old: e.old, new: e.new }
}

fn entry_to_ref_change(entry: &CursorEntry) -> (r: RefChange)
    ensures
        r@ == change_of(entry@),
{
    RefChange {
        reference: entry.reference.clone(),
        old: entry.old.clone(),
        new: entry.new.clone(),
    }
}

/// The records among reflog records that moved their ref.
pub open spec fn moving_entries(
    records: Seq<RecordView>,
    key: Seq<char>,
    reference: Seq<char>,
) -> Seq<EntryView>
    decreases records.len(),
{
    if records.len() == 0 {
        seq![]
    } else {
        let before = moving_entries(records.drop_last(), key, reference);
        let r = records.last();
        if r.old != r.new {
            before.push(
                EntryView {
                    key,
                    reference,
                    old: r.old,
                    new: r.new,
                    message: r.message,
                    end_offset: r.end_offset as u64,
                },
            )
        } else {
            before
        }
    }
}

/// The records behind an offset of a log that moved its ref.
pub open spec fn entries_of(
    bytes: Seq<u8>,
    key: Seq<char>,
    reference: Seq<char>,
    offset: Option<u64>,
) -> Seq<EntryView> {
    moving_entries(records_of(bytes, offset), key, reference)
}

fn read_reflog_entries(key: &str, bytes: &[u8], reference: &str, start_offset: Option<u64>) -> (r:
    Vec<CursorEntry>)
    ensures
        views(r@) == entries_of(bytes@, key@, reference@, start_offset),
{
    let records = read_reflog_records(bytes, start_offset);
    let ghost rs = views(records@);
    let mut out: Vec<CursorEntry> = Vec::new();
    let mut i: usize = 0;
    proof {
        assert(rs.take(0) =~= seq![]);
        assert(views(out@) =~= seq![]);
    }
    while i < records.len()
        invariant
            i <= records@.len(),
            rs == views(records@),
            views(out@) == moving_entries(rs.take(i as int), key@, reference@),
        decreases records.len() - i,
    {
        let r = &records[i];
        proof {
            assert(rs.take(i + 1).drop_last() =~= rs.take(i as int));
            assert(rs.take(i + 1).last() == r@);
        }
        if !str_eq(r.old.as_str(), r.new.as_str()) {
            let entry = CursorEntry {
                key: key.to_owned(),
                reference: reference.to_owned(),
                old: r.old.clone(),
                new: r.new.clone(),
                message: r.message.clone(),
                end_offset: r.end_offset,
            };
            proof {
                lemma_views_push(out@, entry);
            }
            out.push(entry);
        }
        i += 1;
    }
    proof {
        assert(rs.take(i as int) =~= rs);
    }
    out
}

// --------------------------------------------------------- expected transitions

/// Which records are looked for: from one of the old objects, where there are any;
/// to the new object, where there is one; with one of the messages, where there
/// are any.
pub struct ExpectedTransition {
    pub old_oids: Vec<String>,
    pub new_oid: Option<String>,
    pub messages: Vec<String>,
}

/// Which records are looked for.
#[verifier::ext_equal]
pub struct ExpectedView {
    pub old_oids: Set<Seq<char>>,
    pub new_oid: Option<Seq<char>>,
    pub messages: Seq<Seq<char>>,
}

impl View for ExpectedTransition {
    type V = ExpectedView;

    open spec fn view(&self) -> ExpectedView {
        ExpectedView {
            old_oids: texts(self.old_oids@).to_set(),
            new_oid: opt_view(self.new_oid),
            messages: texts(self.messages@),
        }
    }
}

/// Any record.
pub open spec fn any_transition() -> ExpectedView {
    ExpectedView { old_oids: Set::empty(), new_oid: None, messages: seq![] }
}

/// Whether a move is one between two different objects.
pub open spec fn is_transition(old: Seq<char>, new: Seq<char>) -> bool {
    is_oid(old) && is_oid(new) && old != new
}

/// Whether a record is one of those looked for.
pub open spec fn is_expected(x: ExpectedView, e: EntryView) -> bool {
    &&& is_transition(e.old, e.new)
    &&& x.messages.len() > 0 ==> x.messages.contains(e.message)
    &&& x.old_oids != Set::<Seq<char>>::empty() ==> x.old_oids.contains(e.old)
    &&& x.new_oid matches Some(new) ==> e.new == new
}

/// Whether a message begins with one of the prefixes, where there are any.
pub open spec fn message_ok(message: Seq<char>, prefixes: Seq<Seq<char>>) -> bool {
    prefixes.len() == 0 || exists|i: int|
        0 <= i < prefixes.len() && has_prefix(message, #[trigger] prefixes[i])
}

/// The texts of string slices.
pub open spec fn strs(v: Seq<&str>) -> Seq<Seq<char>> {
    Seq::new(v.len(), |i: int| v[i]@)
}

fn message_matches(message: &str, prefixes: &[&str]) -> (r: bool)
    ensures
        r == message_ok(message@, strs(prefixes@)),
{
    if prefixes.len() == 0 {
        return true;
    }
    let mut i: usize = 0;
    while i < prefixes.len()
        invariant
            i <= prefixes@.len(),
            prefixes@.len() > 0,
            forall|k: int| 0 <= k < i ==> !has_prefix(message@, #[trigger] strs(prefixes@)[k]),
        decreases prefixes.len() - i,
    {
        proof {
            assert(strs(prefixes@)[i as int] == prefixes@[i as int]@);
        }
        if starts_with(message, prefixes[i]) {
            return true;
        }
        i += 1;
    }
    false
}

impl ExpectedTransition {
    /// Any record.
    pub fn any() -> (r: Self)
        ensures
            r@ == any_transition(),
    {
        let r = ExpectedTransition {
            old_oids: Vec::new(),
            new_oid: None,
            messages: Vec::new(),
        };
        proof {
            assert(texts(r.old_oids@).to_set() =~= Set::empty());
            assert(texts(r.messages@) =~= seq![]);
        }
        r
    }

    /// Records from an object, where one is given, to another, where one is given.
    pub fn between(old: Option<&str>, new: Option<&str>) -> (r: Self)
        ensures
            r@ == between_transition(opt_str(old), opt_str(new)),
    {
        let mut old_oids: Vec<String> = Vec::new();
        if let Some(o) = old {
            old_oids.push(o.to_owned());
        }
        let r = ExpectedTransition {
            old_oids,
            new_oid: match new {
                Some(n) => Some(n.to_owned()),
                None => None,
            },
            messages: Vec::new(),
        };
        proof {
            assert(texts(r.messages@) =~= seq![]);
            match old {
                Some(o) => {
                    assert(texts(r.old_oids@) =~= seq![o@]);
                    assert(texts(r.old_oids@)[0] == o@);
                    assert(texts(r.old_oids@).to_set() =~= set![o@]);
                },
                None => {
                    assert(texts(r.old_oids@).to_set() =~= Set::empty());
                },
            }
        }
        r
    }

    /// The same records, but only with one of the messages.
    pub fn with_reflog_messages(self, messages: Vec<String>) -> (r: Self)
        ensures
            r@ == (ExpectedView { messages: texts(messages@), ..self@ }),
    {
        ExpectedTransition { old_oids: self.old_oids, new_oid: self.new_oid, messages }
    }

    /// Whether a record is one of those looked for.
    pub fn matches(&self, entry: &CursorEntry) -> (r: bool)
        ensures
            r == is_expected(self@, entry@),
    {
        if !is_valid_git_oid(entry.old.as_str()) || !is_valid_git_oid(entry.new.as_str())
            || str_eq(entry.old.as_str(), entry.new.as_str()) {
            return false;
        }
        if self.messages.len() > 0 && !list_contains(
            self.messages.as_slice(),
            entry.message.as_str(),
        ) {
            return false;
        }
        if self.old_oids.len() > 0 {
            proof {
                assert(texts(self.old_oids@)[0] == self.old_oids@[0]@);
                assert(self@.old_oids.contains(self.old_oids@[0]@));
            }
            if !list_contains(self.old_oids.as_slice(), entry.old.as_str()) {
                return false;
            }
        } else {
            proof {
                assert(self@.old_oids =~= Set::empty());
            }
        }
        match &self.new_oid {
            Some(new) => str_eq(entry.new.as_str(), new.as_str()),
            None => true,
        }
    }
}

/// Records from an object, where one is given, to another, where one is given.
pub open spec fn between_transition(old: Option<Seq<char>>, new: Option<Seq<char>>) -> ExpectedView {
    ExpectedView {
        old_oids: match old {
            Some(o) => set![o],
            None => Set::empty(),
        },
        new_oid: new,
        messages: seq![],
    }
}

/// The objects that a command may have started from: where `HEAD` and the branches
/// stand, and the commits that working logs are based on. The working log named
/// `initial` is based on the zero object.
pub open spec fn start_oids_of(refs: Map<Seq<char>, Seq<char>>, working_logs: Seq<Seq<char>>) -> Set<
    Seq<char>,
> {
    Set::new(
        |o: Seq<char>|
            {
                ||| is_real_oid(o) && refs.dom().contains("HEAD"@) && refs["HEAD"@] == o
                ||| is_real_oid(o) && exists|r: Seq<char>|
                    #![trigger refs.dom().contains(r)]
                    refs.dom().contains(r) && has_prefix(r, "refs/heads/"@) && refs[r] == o
                ||| is_real_oid(o) && o != "initial"@ && working_logs.contains(o)
                ||| o == zero_oid_of() && working_logs.contains("initial"@)
            },
    )
}

/// The records looked for behind a command, with the worktree's working logs where
/// the command has a worktree.
pub open spec fn expected_from(
    refs: Map<Seq<char>, Seq<char>>,
    has_worktree: bool,
    working_logs: Seq<Seq<char>>,
) -> ExpectedView {
    ExpectedView {
        old_oids: start_oids_of(
            refs,
            if has_worktree {
                working_logs
            } else {
                seq![]
            },
        ),
        new_oid: None,
        messages: seq![],
    }
}

impl ExpectedTransition {
    /// The records looked for behind a command.
    pub fn from_state_and_working_logs(
        has_worktree: bool,
        state: &FamilyState,
        working_logs: &[String],
    ) -> (r: Self)
        ensures
            r@ == expected_from(text_values(state.refs@), has_worktree, texts(working_logs@)),
    {
        let ghost refs = text_values(state.refs@);
        let ghost names = if has_worktree {
            texts(working_logs@)
        } else {
            seq![]
        };
        let mut old: Vec<String> = Vec::new();
        let ghost head_set = Set::new(
            |o: Seq<char>|
                is_real_oid(o) && refs.dom().contains("HEAD"@) && refs["HEAD"@] == o,
        );
        if let Some(head) = state.refs.get("HEAD") {
            proof {
                assert(refs["HEAD"@] == head@);
            }
            if is_valid_non_zero_oid(head.as_str()) {
                old.push(head.clone());
                proof {
                    assert(texts(old@) =~= seq![head@]);
                    assert(texts(old@)[0] == head@);
                }
            }
        }
        proof {
            assert(texts(old@).to_set() =~= head_set);
        }
        let n: usize = state.refs.len();
        let ghost order = state.refs.key_order();
        let mut i: usize = 0;
        while i < n
            invariant
                i <= n,
                n == order.len(),
                order == state.refs.key_order(),
                refs == text_values(state.refs@),
                forall|k: Seq<char>| order.contains(k) <==> state.refs@.dom().contains(k),
                texts(old@).to_set() == head_set + Set::new(
                    |o: Seq<char>|
                        is_real_oid(o) && exists|k: int|
                            #![trigger order[k]]
                            0 <= k < i && has_prefix(order[k], "refs/heads/"@) && refs[order[k]]
                                == o,
                ),
            decreases n - i,
        {
            let ghost before_texts = texts(old@);
            let ghost before = before_texts.to_set();
            let reference = state.refs.key_at(i);
            let oid = state.refs.value_at(i);
            proof {
                assert(refs[order[i as int]] == oid@);
            }
            if starts_with(reference.as_str(), "refs/heads/") && is_valid_non_zero_oid(
                oid.as_str(),
            ) {
                proof {
                    lemma_texts_push(old@, *oid);
                }
                old.push(oid.clone());
                proof {
                    before_texts.lemma_push_to_set_commute(oid@);
                    assert(texts(old@).to_set() == before.insert(oid@));
                }
            }
            proof {
                let now = head_set + Set::new(
                    |o: Seq<char>|
                        is_real_oid(o) && exists|k: int|
                            #![trigger order[k]]
                            0 <= k < i + 1 && has_prefix(order[k], "refs/heads/"@)
                                && refs[order[k]] == o,
                );
                assert forall|o: Seq<char>| texts(old@).to_set().contains(o) == now.contains(o) by {
                    assert(order[i as int] == reference@);
                    if now.contains(o) && !head_set.contains(o) {
                        let k = choose|k: int|
                            #![trigger order[k]]
                            0 <= k < i + 1 && has_prefix(order[k], "refs/heads/"@)
                                && refs[order[k]] == o;
                        assert(k < i || k == i);
                    }
                }
                assert(texts(old@).to_set() =~= now);
            }
            i += 1;
        }
        proof {
            assert(texts(old@).to_set() =~= start_oids_of(refs, seq![])) by {
                assert forall|o: Seq<char>| texts(old@).to_set().contains(o) <==> start_oids_of(
                    refs,
                    seq![],
                ).contains(o) by {
                    if exists|r: Seq<char>|
                        #![trigger refs.dom().contains(r)]
                        refs.dom().contains(r) && has_prefix(r, "refs/heads/"@) && refs[r] == o {
                        let r = choose|r: Seq<char>|
                            #![trigger refs.dom().contains(r)]
                            refs.dom().contains(r) && has_prefix(r, "refs/heads/"@) && refs[r] == o;
                        assert(order.contains(r));
                        assert(order[order.index_of(r)] == r);
                    }
                    if exists|k: int|
                        #![trigger order[k]]
                        0 <= k < i && has_prefix(order[k], "refs/heads/"@) && refs[order[k]] == o {
                        let k = choose|k: int|
                            #![trigger order[k]]
                            0 <= k < i && has_prefix(order[k], "refs/heads/"@) && refs[order[k]]
                                == o;
                        assert(order.contains(order[k]));
                        assert(refs.dom().contains(order[k]));
                    }
                    assert(!Seq::<Seq<char>>::empty().contains("initial"@));
                    assert(!Seq::<Seq<char>>::empty().contains(o));
                }
            }
        }
        if has_worktree {
            let mut j: usize = 0;
            proof {
                assert(names.take(0) =~= seq![]);
            }
            while j < working_logs.len()
                invariant
                    j <= working_logs@.len(),
                    names == texts(working_logs@),
                    texts(old@).to_set() == start_oids_of(refs, names.take(j as int)),
                decreases working_logs.len() - j,
            {
                let name = &working_logs[j];
                let ghost before = texts(old@).to_set();
                let ghost t0 = texts(old@);
                let ghost was = names.take(j as int);
                let ghost now = names.take(j + 1);
                proof {
                    assert(now =~= was.push(name@));
                    assert(forall|o: Seq<char>| now.contains(o) <==> was.contains(o) || o == name@)
                        by {
                        assert forall|o: Seq<char>| now.contains(o) <==> was.contains(o) || o
                            == name@ by {
                            if was.contains(o) {
                                assert(now[was.index_of(o)] == o);
                            }
                            if o == name@ {
                                assert(now[j as int] == o);
                            }
                            if now.contains(o) {
                                let k = now.index_of(o);
                                if k < j {
                                    assert(was[k] == o);
                                }
                            }
                        }
                    }
                }
                if str_eq(name.as_str(), "initial") {
                    old.push(zero_oid());
                } else if is_valid_non_zero_oid(name.as_str()) {
                    old.push(name.clone());
                }
                proof {
                    let t1 = texts(old@);
                    if t1.len() > t0.len() {
                        assert(t1 =~= t0.push(t1.last()));
                        t0.lemma_push_to_set_commute(t1.last());
                    }
                    assert forall|o: Seq<char>| t1.to_set().contains(o) == start_oids_of(
                        refs,
                        now,
                    ).contains(o) by {
                        assert(before.contains(o) == start_oids_of(refs, was).contains(o));
                        assert(now.contains("initial"@) == (was.contains("initial"@) || name@
                            == "initial"@));
                        assert(now.contains(o) == (was.contains(o) || o == name@));
                    }
                    assert(t1.to_set() =~= start_oids_of(refs, now));
                }
                j += 1;
            }
            proof {
                assert(names.take(j as int) =~= names);
            }
        }
        let r = ExpectedTransition { old_oids: old, new_oid: None, messages: Vec::new() };
        proof {
            assert(texts(r.messages@) =~= seq![]);
        }
        r
    }
}

// ------------------------------------------------------------------ the reflogs

/// The key of the offset of a ref's reflog.
pub open spec fn common_key_of(reference: Seq<char>) -> Seq<char> {
    "common:"@ + reference
}

fn common_key(reference: &str) -> (r: String)
    ensures
        r@ == common_key_of(reference@),
{
    concat("common:", reference)
}

/// The key of the offset of the reflog of `HEAD` in a git directory.
pub open spec fn head_key_of(logs: RefLogs, git_dir: Seq<char>) -> Seq<char> {
    "worktree:"@ + (if logs.canonical@.dom().contains(git_dir) {
        logs.canonical@[git_dir]@
    } else {
        git_dir
    }) + ":HEAD"@
}

fn head_key(logs: &RefLogs, git_dir: &str) -> (r: String)
    ensures
        r@ == head_key_of(*logs, git_dir@),
{
    match logs.canonical.get(git_dir) {
        Some(path) => concat3("worktree:", path.as_str(), ":HEAD"),
        None => concat3("worktree:", git_dir, ":HEAD"),
    }
}

/// The path of a ref's reflog.
pub open spec fn log_path_of(dir: Seq<char>, reference: Seq<char>) -> Seq<char> {
    joined(joined(dir, "logs"@), reference)
}

fn log_path(dir: &str, reference: &str) -> (r: String)
    ensures
        r@ == log_path_of(dir@, reference@),
{
    join(join(dir, "logs").as_str(), reference)
}

/// A cursor with what went wrong, where nothing has gone wrong before.
pub open spec fn failed(c: CursorView, cause: Option<Seq<char>>) -> CursorView {
    if c.failure is None && cause is Some {
        CursorView { failure: cause, ..c }
    } else {
        c
    }
}

/// A cursor without what went wrong.
pub open spec fn recovered(c: CursorView) -> CursorView {
    CursorView { failure: None, ..c }
}

/// A cursor that has looked at a ref's reflog: one that is there and cannot be read is a
/// failure.
pub open spec fn looked_at(
    c: CursorView,
    files: FileTree,
    dir: Seq<char>,
    reference: Seq<char>,
) -> CursorView {
    failed(c, files.failure_at(log_path_of(dir, reference)))
}

/// A cursor that has looked at the reflog of a worktree's `HEAD`.
pub open spec fn looked_at_head(
    c: CursorView,
    logs: RefLogs,
    worktree: Option<Seq<char>>,
) -> CursorView {
    match worktree {
        Some(w) => match git_dir_of(logs.files, w) {
            Some(git_dir) => looked_at(c, logs.files, git_dir, "HEAD"@),
            None => c,
        },
        None => c,
    }
}

/// Why the refs that have a reflog cannot be listed: the first directory among paths that
/// could not be read.
pub open spec fn listing_failure_among(files: FileTree, paths: Seq<Seq<char>>, logs_dir: Seq<char>)
    -> Option<Seq<char>>
    decreases paths.len(),
{
    if paths.len() == 0 {
        None
    } else {
        let before = listing_failure_among(files, paths.drop_last(), logs_dir);
        let path = paths.last();
        if before is None && files.is_dir_at(path) && files.causes@.dom().contains(path) && (path
            == logs_dir || has_prefix(path, logs_dir + "/"@)) {
            Some(files.cause_at(path))
        } else {
            before
        }
    }
}

/// Why the refs that have a reflog cannot be listed.
pub open spec fn listing_failure(files: FileTree, dir: Seq<char>) -> Option<Seq<char>> {
    listing_failure_among(files, files.causes.key_order(), joined(dir, "logs"@))
}

/// A cursor that has listed the refs that have a reflog.
pub open spec fn listed(c: CursorView, files: FileTree, dir: Seq<char>) -> CursorView {
    failed(c, listing_failure(files, dir))
}

fn why_not_listed(files: &FileTree, dir: &str) -> (r: Option<String>)
    ensures
        opt_view(r) == listing_failure(*files, dir@),
{
    let logs_dir = join(dir, "logs");
    let prefix = concat(logs_dir.as_str(), "/");
    let ghost paths = files.causes.key_order();
    let n: usize = files.causes.len();
    let mut i: usize = 0;
    proof {
        assert(paths.take(0) =~= seq![]);
    }
    while i < n
        invariant
            i <= n,
            n == paths.len(),
            paths == files.causes.key_order(),
            prefix@ == logs_dir@ + "/"@,
            logs_dir@ == joined(dir@, "logs"@),
            files.causes@.dom() == Set::new(|k: Seq<char>| paths.contains(k)),
            listing_failure_among(*files, paths.take(i as int), logs_dir@) is None,
        decreases n - i,
    {
        let path = files.causes.key_at(i);
        proof {
            assert(paths.take(i + 1).drop_last() =~= paths.take(i as int));
            assert(paths.take(i + 1).last() == path@);
            assert(paths.contains(path@));
        }
        if files.is_dir(path.as_str()) && (str_eq(path.as_str(), logs_dir.as_str()) || starts_with(
            path.as_str(),
            prefix.as_str(),
        )) {
            proof {
                lemma_listing_failure_stays(*files, paths, logs_dir@, i + 1);
            }
            return Some(files.cause(path.as_str()));
        }
        i += 1;
    }
    proof {
        assert(paths.take(i as int) =~= paths);
    }
    None
}

proof fn lemma_listing_failure_stays(
    files: FileTree,
    paths: Seq<Seq<char>>,
    logs_dir: Seq<char>,
    n: int,
)
    requires
        0 <= n <= paths.len(),
        listing_failure_among(files, paths.take(n), logs_dir) is Some,
    ensures
        listing_failure_among(files, paths, logs_dir) == listing_failure_among(
            files,
            paths.take(n),
            logs_dir,
        ),
    decreases paths.len() - n,
{
    if n < paths.len() {
        assert(paths.take(n + 1).drop_last() =~= paths.take(n));
        lemma_listing_failure_stays(files, paths, logs_dir, n + 1);
    } else {
        assert(paths.take(n) =~= paths);
    }
}

/// What a reflog holds; a missing one holds nothing.
pub open spec fn log_bytes_of(files: FileTree, path: Seq<char>) -> Seq<u8> {
    match files.bytes_at(path) {
        Some(bytes) => bytes,
        None => seq![],
    }
}

fn log_entries(files: &FileTree, path: &str, key: &str, reference: &str, offset: Option<u64>) -> (r:
    Vec<CursorEntry>)
    ensures
        views(r@) == entries_of(log_bytes_of(*files, path@), key@, reference@, offset),
{
    match files.read(path) {
        Some(bytes) => read_reflog_entries(key, bytes.as_slice(), reference, offset),
        None => {
            let none: Vec<u8> = Vec::new();
            proof {
                assert(none@ =~= seq![]);
            }
            read_reflog_entries(key, none.as_slice(), reference, offset)
        },
    }
}

/// The ref whose reflog a path under the directory of reflogs is.
pub open spec fn logged_ref_of(path: Seq<char>, logs_dir: Seq<char>) -> Option<Seq<char>> {
    let prefix = logs_dir + "/"@;
    if has_prefix(path, prefix) {
        let name = replaced(path.skip(prefix.len() as int), '\\', '/');
        if name == "HEAD"@ || name == "ORIG_HEAD"@ || has_prefix(name, "refs/"@) {
            Some(name)
        } else {
            None
        }
    } else {
        None
    }
}

/// The refs whose reflogs are among paths, sorted, each once.
pub open spec fn logged_refs_among(files: FileTree, paths: Seq<Seq<char>>, logs_dir: Seq<char>)
    -> Seq<Seq<char>>
    decreases paths.len(),
{
    if paths.len() == 0 {
        seq![]
    } else {
        let before = logged_refs_among(files, paths.drop_last(), logs_dir);
        match logged_ref_of(paths.last(), logs_dir) {
            Some(name) => if files.names_file(paths.last()) {
                with_sorted(before, name)
            } else {
                before
            },
            None => before,
        }
    }
}

/// The refs that have a reflog, sorted, each once.
pub open spec fn logged_refs(files: FileTree, dir: Seq<char>) -> Seq<Seq<char>> {
    logged_refs_among(
        files,
        files.nodes.key_order() + files.causes.key_order(),
        joined(dir, "logs"@),
    )
}

/// The refs that have a reflog, sorted, each once.
pub fn discover_common_refs(files: &FileTree, dir: &str) -> (r: Vec<String>)
    ensures
        texts(r@) == logged_refs(*files, dir@),
{
    let logs_dir = join(dir, "logs");
    let prefix = concat(logs_dir.as_str(), "/");
    let ghost paths = files.nodes.key_order() + files.causes.key_order();
    let known: usize = files.nodes.len();
    let others: usize = files.causes.len();
    let mut out: Vec<String> = Vec::new();
    let mut i: usize = 0;
    proof {
        assert(paths.take(0) =~= seq![]);
        assert(texts(out@) =~= seq![]);
    }
    while i < known
        invariant
            i <= known,
            known == files.nodes.key_order().len(),
            paths == files.nodes.key_order() + files.causes.key_order(),
            prefix@ == logs_dir@ + "/"@,
            texts(out@) == logged_refs_among(*files, paths.take(i as int), logs_dir@),
        decreases known - i,
    {
        let path = files.nodes.key_at(i);
        proof {
            assert(paths.take(i + 1).drop_last() =~= paths.take(i as int));
            assert(paths.take(i + 1).last() == path@);
        }
        add_logged_ref(files, path.as_str(), logs_dir.as_str(), prefix.as_str(), &mut out);
        i += 1;
    }
    let mut k: usize = 0;
    while k < others
        invariant
            k <= others,
            known == files.nodes.key_order().len(),
            others == files.causes.key_order().len(),
            paths == files.nodes.key_order() + files.causes.key_order(),
            prefix@ == logs_dir@ + "/"@,
            texts(out@) == logged_refs_among(*files, paths.take(known + k), logs_dir@),
        decreases others - k,
    {
        let path = files.causes.key_at(k);
        proof {
            assert(paths.take(known + k + 1).drop_last() =~= paths.take(known + k));
            assert(paths.take(known + k + 1).last() == path@);
        }
        add_logged_ref(files, path.as_str(), logs_dir.as_str(), prefix.as_str(), &mut out);
        k += 1;
    }
    proof {
        assert(paths.take(known + k) =~= paths);
    }
    out
}

fn add_logged_ref(
    files: &FileTree,
    path: &str,
    logs_dir: &str,
    prefix: &str,
    out: &mut Vec<String>,
)
    requires
        prefix@ == logs_dir@ + "/"@,
    ensures
        texts(final(out)@) == match logged_ref_of(path@, logs_dir@) {
            Some(name) => if files.names_file(path@) {
                with_sorted(texts(old(out)@), name)
            } else {
                texts(old(out)@)
            },
            None => texts(old(out)@),
        },
{
    if files.has_file(path) {
        if let Some(rest) = strip_prefix(path, prefix) {
            let name = replace_char(rest.as_str(), '\\', '/');
            if str_eq(name.as_str(), "HEAD") || str_eq(name.as_str(), "ORIG_HEAD") || starts_with(
                name.as_str(),
                "refs/",
            ) {
                insert_sorted(out, name);
            }
        }
    }
}

// ------------------------------------------------------------ finding and moving

/// The offset of a reflog.
pub open spec fn offset_at(c: CursorView, key: Seq<char>) -> Option<u64> {
    if c.offsets.dom().contains(key) {
        Some(c.offsets[key])
    } else {
        None
    }
}

/// The first of records that is looked for and has one of the prefixes.
pub open spec fn first_expected(
    entries: Seq<EntryView>,
    x: ExpectedView,
    prefixes: Seq<Seq<char>>,
) -> Option<EntryView> {
    first_where(entries, |e: EntryView| is_expected(x, e) && message_ok(e.message, prefixes))
}

fn find_expected(entries: Vec<CursorEntry>, expected: &ExpectedTransition, prefixes: &[&str]) -> (r:
    Option<CursorEntry>)
    ensures
        opt_view(r) == first_expected(views(entries@), expected@, strs(prefixes@)),
{
    let ghost all = views(entries@);
    let mut list = entries;
    let ghost p = |e: EntryView|
        is_expected(expected@, e) && message_ok(e.message, strs(prefixes@));
    let mut i: usize = 0;
    proof {
        assert(all.skip(0) =~= all);
    }
    while i < list.len()
        invariant
            i <= list@.len(),
            all == views(list@),
            all == views(entries@),
            p == (|e: EntryView|
                is_expected(expected@, e) && message_ok(e.message, strs(prefixes@))),
            first_where(all, p) == first_where(all.skip(i as int), p),
        decreases list.len() - i,
    {
        proof {
            assert(all.skip(i as int)[0] == list@[i as int]@);
            assert(all.skip(i as int).drop_first() =~= all.skip(i + 1));
        }
        if expected.matches(&list[i]) && message_matches(list[i].message.as_str(), prefixes) {
            return Some(list.swap_remove(i));
        }
        i += 1;
    }
    None
}

/// The first record behind the offset of a ref's reflog that is looked for.
pub open spec fn find_common(
    c: CursorView,
    files: FileTree,
    dir: Seq<char>,
    reference: Seq<char>,
    x: ExpectedView,
    prefixes: Seq<Seq<char>>,
) -> Option<EntryView> {
    let key = common_key_of(reference);
    if c.failure is Some {
        None
    } else {
        first_expected(
            entries_of(
                log_bytes_of(files, log_path_of(dir, reference)),
                key,
                reference,
                offset_at(c, key),
            ),
            x,
            prefixes,
        )
    }
}

/// The records behind an offset of the reflog of a worktree's `HEAD`.
pub open spec fn head_entries(
    logs: RefLogs,
    git_dir: Seq<char>,
    offset: Option<u64>,
) -> Seq<EntryView> {
    entries_of(
        log_bytes_of(logs.files, log_path_of(git_dir, "HEAD"@)),
        head_key_of(logs, git_dir),
        "HEAD"@,
        offset,
    )
}

/// The first record behind the offset of the reflog of a worktree's `HEAD` that is
/// looked for.
pub open spec fn find_head(
    c: CursorView,
    logs: RefLogs,
    worktree: Option<Seq<char>>,
    prefixes: Seq<Seq<char>>,
    x: ExpectedView,
) -> Option<EntryView> {
    match worktree {
        Some(w) => match git_dir_of(logs.files, w) {
            Some(git_dir) => if c.failure is Some {
                None
            } else {
                first_expected(
                    head_entries(logs, git_dir, offset_at(c, head_key_of(logs, git_dir))),
                    x,
                    prefixes,
                )
            },
            None => None,
        },
        None => None,
    }
}

/// The cursor behind a record.
pub open spec fn consumed(c: CursorView, e: EntryView) -> CursorView {
    CursorView { offsets: c.offsets.insert(e.key, e.end_offset), ..c }
}

/// Whether a ref is left out when the other refs are looked through.
pub open spec fn is_special_ref(r: Seq<char>) -> bool {
    r == "HEAD"@ || r == "ORIG_HEAD"@ || r == "refs/stash"@
}

/// The cursor and the changes after each of the refs has been looked through for
/// one record.
pub open spec fn swept(
    c: CursorView,
    refs: Seq<Seq<char>>,
    files: FileTree,
    dir: Seq<char>,
    x: ExpectedView,
    prefixes: Seq<Seq<char>>,
) -> (CursorView, Seq<RefChangeView>)
    decreases refs.len(),
{
    if refs.len() == 0 {
        (c, seq![])
    } else {
        let (c1, changes) = swept(c, refs.drop_last(), files, dir, x, prefixes);
        if is_special_ref(refs.last()) {
            (c1, changes)
        } else {
            let c2 = looked_at(c1, files, dir, refs.last());
            match find_common(c2, files, dir, refs.last(), x, prefixes) {
                Some(e) => (consumed(c2, e), changes.push(change_of(e))),
                None => (c2, changes),
            }
        }
    }
}

/// The cursor and the change after `ORIG_HEAD` has been looked at: its next record
/// belongs to a move of `HEAD` where it shares an end with it.
pub open spec fn orig_head_moved(
    c: CursorView,
    files: FileTree,
    dir: Seq<char>,
    old: Seq<char>,
    new: Seq<char>,
) -> (CursorView, Seq<RefChangeView>) {
    let c1 = looked_at(c, files, dir, "ORIG_HEAD"@);
    match find_common(c1, files, dir, "ORIG_HEAD"@, any_transition(), seq![]) {
        Some(e) => if e.new == old || e.new == new || e.old == old {
            (consumed(c1, e), seq![change_of(e)])
        } else {
            (c1, seq![])
        },
        None => (c1, seq![]),
    }
}

/// Changes that are told; behind a failure there are none.
pub open spec fn unless_failed(c: CursorView, changes: Seq<RefChangeView>) -> Seq<RefChangeView> {
    if c.failure is Some {
        seq![]
    } else {
        distinct_changes(changes)
    }
}

/// Changes without repetition, each where it came first.
pub open spec fn distinct_changes(changes: Seq<RefChangeView>) -> Seq<RefChangeView>
    decreases changes.len(),
{
    if changes.len() == 0 {
        seq![]
    } else {
        let before = distinct_changes(changes.drop_last());
        if before.contains(changes.last()) {
            before
        } else {
            before.push(changes.last())
        }
    }
}

fn has_change(list: &Vec<RefChange>, change: &RefChange) -> (r: bool)
    ensures
        r == views(list@).contains(change@),
{
    let mut i: usize = 0;
    while i < list.len()
        invariant
            i <= list@.len(),
            forall|k: int| 0 <= k < i ==> #[trigger] views(list@)[k] != change@,
        decreases list.len() - i,
    {
        proof {
            assert(views(list@)[i as int] == list@[i as int]@);
        }
        if str_eq(list[i].reference.as_str(), change.reference.as_str()) && str_eq(
            list[i].old.as_str(),
            change.old.as_str(),
        ) && str_eq(list[i].new.as_str(), change.new.as_str()) {
            proof {
                assert(list@[i as int]@ == change@);
            }
            return true;
        }
        i += 1;
    }
    false
}

fn clone_change(c: &RefChange) -> (r: RefChange)
    ensures
        r@ == c@,
{
    RefChange { reference: c.reference.clone(), old: c.old.clone(), new: c.new.clone() }
}

fn dedup_ref_changes(changes: Vec<RefChange>) -> (r: Vec<RefChange>)
    ensures
        views(r@) == distinct_changes(views(changes@)),
{
    let ghost all = views(changes@);
    let mut out: Vec<RefChange> = Vec::new();
    let mut i: usize = 0;
    proof {
        assert(all.take(0) =~= seq![]);
        assert(views(out@) =~= seq![]);
    }
    while i < changes.len()
        invariant
            i <= changes@.len(),
            all == views(changes@),
            views(out@) == distinct_changes(all.take(i as int)),
        decreases changes.len() - i,
    {
        proof {
            assert(all.take(i + 1).drop_last() =~= all.take(i as int));
            assert(all.take(i + 1).last() == changes@[i as int]@);
        }
        if !has_change(&out, &changes[i]) {
            let change = clone_change(&changes[i]);
            proof {
                lemma_views_push(out@, change);
            }
            out.push(change);
        }
        i += 1;
    }
    proof {
        assert(all.take(i as int) =~= all);
    }
    out
}

/// No change occurs twice among distinct changes, and none is lost.
pub proof fn law_distinct_changes(changes: Seq<RefChangeView>)
    ensures
        distinct_changes(changes).no_duplicates(),
        forall|c: RefChangeView|
            #[trigger] distinct_changes(changes).contains(c) <==> changes.contains(c),
    decreases changes.len(),
{
    if changes.len() > 0 {
        let front = changes.drop_last();
        law_distinct_changes(front);
        let before = distinct_changes(front);
        let after = distinct_changes(changes);
        assert forall|c: RefChangeView| #[trigger] after.contains(c) <==> changes.contains(c) by {
            if changes.contains(c) {
                let k = changes.index_of(c);
                if k < front.len() {
                    assert(front[k] == c);
                    assert(before.contains(c));
                    assert(after[before.index_of(c)] == c);
                } else {
                    if !before.contains(c) {
                        assert(after[before.len() as int] == c);
                    }
                }
            }
            if after.contains(c) {
                let k = after.index_of(c);
                if k < before.len() {
                    assert(before[k] == c);
                    assert(before.contains(c));
                    assert(changes[front.index_of(c)] == c);
                } else {
                    assert(changes[changes.len() - 1] == c);
                }
            }
        }
    }
}

// ------------------------------------------------------------------ moves of HEAD

/// Records that are looked for and have one of the prefixes.
pub open spec fn expected_among(
    entries: Seq<EntryView>,
    x: ExpectedView,
    prefixes: Seq<Seq<char>>,
) -> Seq<EntryView>
    decreases entries.len(),
{
    if entries.len() == 0 {
        seq![]
    } else {
        let before = expected_among(entries.drop_last(), x, prefixes);
        if is_expected(x, entries.last()) && message_ok(entries.last().message, prefixes) {
            before.push(entries.last())
        } else {
            before
        }
    }
}

/// The cursor behind records, one after the other.
pub open spec fn consumed_all(c: CursorView, entries: Seq<EntryView>) -> CursorView
    decreases entries.len(),
{
    if entries.len() == 0 {
        c
    } else {
        consumed(consumed_all(c, entries.drop_last()), entries.last())
    }
}

/// The changes that records tell.
pub open spec fn changes_of(entries: Seq<EntryView>) -> Seq<RefChangeView> {
    Seq::new(entries.len(), |i: int| change_of(entries[i]))
}

/// The records of a run of moves of `HEAD`: the first that is looked for, and all
/// behind it with one of the prefixes of the rest.
pub open spec fn head_span(
    c: CursorView,
    logs: RefLogs,
    worktree: Option<Seq<char>>,
    prefixes: Seq<Seq<char>>,
    rest_prefixes: Seq<Seq<char>>,
    x: ExpectedView,
) -> Seq<EntryView> {
    match find_head(c, logs, worktree, prefixes, x) {
        Some(first) => seq![first] + expected_among(
            head_entries(logs, git_dir_of(logs.files, worktree->0)->0, Some(first.end_offset)),
            any_transition(),
            rest_prefixes,
        ),
        None => seq![],
    }
}

/// The cursor and the changes after a run of moves of `HEAD`, with those of the
/// refs that made the same way, and of `ORIG_HEAD`.
pub open spec fn span_told(c: CursorView, logs: RefLogs, dir: Seq<char>, span: Seq<EntryView>) -> (
    CursorView,
    Seq<RefChangeView>,
) {
    if span.len() == 0 {
        (c, seq![])
    } else {
        let old = span[0].old;
        let new = span.last().new;
        let (c2, others) = swept(
            listed(consumed_all(c, span), logs.files, dir),
            logged_refs(logs.files, dir),
            logs.files,
            dir,
            between_transition(Some(old), Some(new)),
            seq![],
        );
        let (c3, orig) = orig_head_moved(c2, logs.files, dir, old, new);
        (c3, unless_failed(c3, changes_of(span) + others + orig))
    }
}

/// The cursor and the changes after a rebase, with those of the refs that made the
/// same way, and of those that a rebase led to the same end.
pub open spec fn rebase_told(c: CursorView, logs: RefLogs, dir: Seq<char>, span: Seq<EntryView>) -> (
    CursorView,
    Seq<RefChangeView>,
) {
    if span.len() == 0 {
        (c, seq![])
    } else {
        let old = span[0].old;
        let new = span.last().new;
        let refs = logged_refs(logs.files, dir);
        let (c2, same_way) = swept(
            listed(consumed_all(c, span), logs.files, dir),
            refs,
            logs.files,
            dir,
            between_transition(Some(old), Some(new)),
            seq![],
        );
        let (c3, same_end) = swept(
            listed(c2, logs.files, dir),
            refs,
            logs.files,
            dir,
            between_transition(None, Some(new)),
            seq!["rebase"@],
        );
        (c3, unless_failed(c3, changes_of(span) + same_way + same_end))
    }
}

/// The one record that a command which moves `HEAD` once leaves.
pub open spec fn head_step(
    c: CursorView,
    logs: RefLogs,
    worktree: Option<Seq<char>>,
    prefixes: Seq<Seq<char>>,
    x: ExpectedView,
) -> Seq<EntryView> {
    match find_head(c, logs, worktree, prefixes, x) {
        Some(e) => seq![e],
        None => seq![],
    }
}

fn push_changes(out: &mut Vec<RefChange>, more: Vec<RefChange>)
    ensures
        views(final(out)@) == views(old(out)@) + views(more@),
{
    let ghost before = views(out@);
    let mut more_left = more;
    out.append(&mut more_left);
    proof {
        assert(views(out@) =~= before + views(more@));
    }
}

impl RefCursor {
    /// A cursor that has told nothing yet.
    pub fn new(family: FamilyKey) -> (r: Self)
        ensures
            r.family == family,
            r@.offsets == Map::<Seq<char>, u64>::empty(),
            r@.stash == Seq::<Seq<char>>::empty(),
            r@.failure is None,
            stack_is_sound(r@),
    {
        let r = RefCursor {
            family,
            offsets: TextMap::new(),
            stash_stack: Vec::new(),
            failure: None,
        };
        proof {
            assert(texts(r.stash_stack@) =~= seq![]);
        }
        r
    }

    fn offset(&self, key: &str) -> (r: Option<u64>)
        ensures
            r == offset_at(self@, key@),
    {
        match self.offsets.get(key) {
            Some(o) => Some(*o),
            None => None,
        }
    }

    fn fail(&mut self, cause: Option<String>)
        ensures
            final(self)@ == failed(old(self)@, opt_view(cause)),
            final(self).family == old(self).family,
    {
        if self.failure.is_none() && cause.is_some() {
            self.failure = cause;
        }
    }

    fn told_changes(&self, changes: Vec<RefChange>) -> (r: Vec<RefChange>)
        ensures
            views(r@) == unless_failed(self@, views(changes@)),
    {
        if self.failure.is_some() {
            let none: Vec<RefChange> = Vec::new();
            proof {
                assert(views(none@) =~= seq![]);
            }
            return none;
        }
        dedup_ref_changes(changes)
    }

    fn look_at(&mut self, files: &FileTree, reference: &str)
        ensures
            final(self)@ == looked_at(old(self)@, *files, old(self).family.0@, reference@),
            final(self).family == old(self).family,
    {
        let path = log_path(self.family.0.as_str(), reference);
        self.fail(files.failure(path.as_str()));
    }

    fn look_at_head(&mut self, logs: &RefLogs, worktree: Option<&str>)
        ensures
            final(self)@ == looked_at_head(old(self)@, *logs, opt_str(worktree)),
            final(self).family == old(self).family,
    {
        if let Some(w) = worktree {
            if let Some(git_dir) = git_dir_for_worktree(&logs.files, w) {
                let path = log_path(git_dir.as_str(), "HEAD");
                self.fail(logs.files.failure(path.as_str()));
            }
        }
    }

    fn consume_entry(&mut self, entry: &CursorEntry)
        ensures
            final(self)@ == consumed(old(self)@, entry@),
            final(self).family == old(self).family,
    {
        self.offsets.insert(entry.key.clone(), entry.end_offset);
    }

    fn find_common_ref_entry(
        &self,
        files: &FileTree,
        reference: &str,
        expected: &ExpectedTransition,
        prefixes: &[&str],
    ) -> (r: Option<CursorEntry>)
        ensures
            opt_view(r) == find_common(
                self@,
                *files,
                self.family.0@,
                reference@,
                expected@,
                strs(prefixes@),
            ),
    {
        if self.failure.is_some() {
            return None;
        }
        let key = common_key(reference);
        let path = log_path(self.family.0.as_str(), reference);
        let entries = log_entries(
            files,
            path.as_str(),
            key.as_str(),
            reference,
            self.offset(key.as_str()),
        );
        find_expected(entries, expected, prefixes)
    }

    fn find_head_entry(
        &self,
        logs: &RefLogs,
        worktree: Option<&str>,
        prefixes: &[&str],
        expected: &ExpectedTransition,
    ) -> (r: Option<CursorEntry>)
        ensures
            opt_view(r) == find_head(
                self@,
                *logs,
                opt_str(worktree),
                strs(prefixes@),
                expected@,
            ),
    {
        if self.failure.is_some() {
            return None;
        }
        let w: &str = match worktree {
            Some(w) => w,
            None => {
                return None;
            },
        };
        let git_dir = match git_dir_for_worktree(&logs.files, w) {
            Some(dir) => dir,
            None => {
                return None;
            },
        };
        let key = head_key(logs, git_dir.as_str());
        let path = log_path(git_dir.as_str(), "HEAD");
        let entries = log_entries(
            &logs.files,
            path.as_str(),
            key.as_str(),
            "HEAD",
            self.offset(key.as_str()),
        );
        find_expected(entries, expected, prefixes)
    }

    fn consume_common_refs(
        &mut self,
        files: &FileTree,
        expected: &ExpectedTransition,
        prefixes: &[&str],
    ) -> (r: Vec<RefChange>)
        ensures
            final(self).family == old(self).family,
            (final(self)@, views(r@)) == swept(
                listed(old(self)@, *files, old(self).family.0@),
                logged_refs(*files, old(self).family.0@),
                *files,
                old(self).family.0@,
                expected@,
                strs(prefixes@),
            ),
    {
        self.fail(why_not_listed(files, self.family.0.as_str()));
        let refs = discover_common_refs(files, self.family.0.as_str());
        let ghost all = texts(refs@);
        let ghost dir = self.family.0@;
        let ghost c0 = self@;
        let mut out: Vec<RefChange> = Vec::new();
        let mut i: usize = 0;
        proof {
            assert(all.take(0) =~= seq![]);
            assert(views(out@) =~= seq![]);
        }
        while i < refs.len()
            invariant
                i <= refs@.len(),
                all == texts(refs@),
                self.family == old(self).family,
                dir == self.family.0@,
                (self@, views(out@)) == swept(
                    c0,
                    all.take(i as int),
                    *files,
                    dir,
                    expected@,
                    strs(prefixes@),
                ),
            decreases refs.len() - i,
        {
            let reference: &str = refs[i].as_str();
            proof {
                assert(all.take(i + 1).drop_last() =~= all.take(i as int));
                assert(all.take(i + 1).last() == reference@);
            }
            if !(str_eq(reference, "HEAD") || str_eq(reference, "ORIG_HEAD") || str_eq(
                reference,
                "refs/stash",
            )) {
                self.look_at(files, reference);
                if let Some(entry) = self.find_common_ref_entry(
                    files,
                    reference,
                    expected,
                    prefixes,
                ) {
                    self.consume_entry(&entry);
                    let change = entry_to_ref_change(&entry);
                    proof {
                        lemma_views_push(out@, change);
                    }
                    out.push(change);
                }
            }
            i += 1;
        }
        proof {
            assert(all.take(i as int) =~= all);
        }
        out
    }

    fn consume_aux_refs_for_head_move(&mut self, files: &FileTree, old_oid: &str, new_oid: &str)
        -> (r: Vec<RefChange>)
        ensures
            final(self).family == old(self).family,
            (final(self)@, views(r@)) == orig_head_moved(
                old(self)@,
                *files,
                old(self).family.0@,
                old_oid@,
                new_oid@,
            ),
    {
        let mut out: Vec<RefChange> = Vec::new();
        let any = ExpectedTransition::any();
        let none: [&str; 0] = [];
        proof {
            assert(views(out@) =~= seq![]);
            assert(strs(none@) =~= seq![]);
        }
        self.look_at(files, "ORIG_HEAD");
        if let Some(entry) = self.find_common_ref_entry(files, "ORIG_HEAD", &any, &none) {
            if str_eq(entry.new.as_str(), old_oid) || str_eq(entry.new.as_str(), new_oid) || str_eq(
                entry.old.as_str(),
                old_oid,
            ) {
                self.consume_entry(&entry);
                let change = entry_to_ref_change(&entry);
                proof {
                    assert(views(out@.push(change)) =~= seq![change@]);
                }
                out.push(change);
            }
        }
        out
    }
}

impl RefCursor {
    fn take_span(
        &mut self,
        logs: &RefLogs,
        worktree: Option<&str>,
        prefixes: &[&str],
        rest_prefixes: &[&str],
        expected: &ExpectedTransition,
        follow: bool,
    ) -> (r: Vec<CursorEntry>)
        ensures
            final(self).family == old(self).family,
            views(r@) == (if follow {
                head_span(
                    looked_at_head(old(self)@, *logs, opt_str(worktree)),
                    *logs,
                    opt_str(worktree),
                    strs(prefixes@),
                    strs(rest_prefixes@),
                    expected@,
                )
            } else {
                head_step(
                    looked_at_head(old(self)@, *logs, opt_str(worktree)),
                    *logs,
                    opt_str(worktree),
                    strs(prefixes@),
                    expected@,
                )
            }),
            final(self)@ == consumed_all(
                looked_at_head(old(self)@, *logs, opt_str(worktree)),
                views(r@),
            ),
    {
        self.look_at_head(logs, worktree);
        let mut span: Vec<CursorEntry> = Vec::new();
        let ghost c0 = self@;
        proof {
            assert(views(span@) =~= seq![]);
        }
        let first = match self.find_head_entry(logs, worktree, prefixes, expected) {
            Some(first) => first,
            None => {
                return span;
            },
        };
        let offset: u64 = first.end_offset;
        self.consume_entry(&first);
        let ghost f = first@;
        span.push(first);
        proof {
            assert(views(span@) =~= seq![f]);
            assert(views(span@).drop_last() =~= seq![]);
            assert(consumed_all(c0, views(span@).drop_last()) == c0);
        }
        if !follow {
            return span;
        }
        let git_dir = match worktree {
            Some(w) => match git_dir_for_worktree(&logs.files, w) {
                Some(dir) => dir,
                None => {
                    return span;
                },
            },
            None => {
                return span;
            },
        };
        let key = head_key(logs, git_dir.as_str());
        let path = log_path(git_dir.as_str(), "HEAD");
        let entries = log_entries(&logs.files, path.as_str(), key.as_str(), "HEAD", Some(offset));
        let ghost es = views(entries@);
        let any = ExpectedTransition::any();
        let mut i: usize = 0;
        proof {
            assert(es.take(0) =~= seq![]);
            assert(seq![f] + Seq::<EntryView>::empty() =~= seq![f]);
        }
        while i < entries.len()
            invariant
                i <= entries@.len(),
                es == views(entries@),
                any@ == any_transition(),
                self.family == old(self).family,
                views(span@) == seq![f] + expected_among(
                    es.take(i as int),
                    any_transition(),
                    strs(rest_prefixes@),
                ),
                self@ == consumed_all(c0, views(span@)),
            decreases entries.len() - i,
        {
            proof {
                assert(es.take(i + 1).drop_last() =~= es.take(i as int));
                assert(es.take(i + 1).last() == entries@[i as int]@);
            }
            if any.matches(&entries[i]) && message_matches(
                entries[i].message.as_str(),
                rest_prefixes,
            ) {
                self.consume_entry(&entries[i]);
                let entry = clone_entry(&entries[i]);
                let ghost before = views(span@);
                proof {
                    lemma_views_push(span@, entry);
                    assert(before.push(entry@).drop_last() =~= before);
                    let k = expected_among(es.take(i as int), any_transition(), strs(rest_prefixes@));
                    assert(seq![f] + k.push(entry@) =~= (seq![f] + k).push(entry@));
                }
                span.push(entry);
            }
            i += 1;
        }
        proof {
            assert(es.take(i as int) =~= es);
        }
        span
    }

    fn tell_span(&mut self, logs: &RefLogs, span: Vec<CursorEntry>, Ghost(c0): Ghost<CursorView>)
        -> (r: Vec<RefChange>)
        requires
            old(self)@ == consumed_all(c0, views(span@)),
        ensures
            final(self).family == old(self).family,
            (final(self)@, views(r@)) == span_told(c0, *logs, old(self).family.0@, views(span@)),
    {
        if span.len() == 0 {
            let out: Vec<RefChange> = Vec::new();
            proof {
                assert(views(out@) =~= seq![]);
            }
            return out;
        }
        let ghost sv = views(span@);
        let mut changes = span_changes(&span);
        let last: usize = span.len() - 1;
        proof {
            assert(sv[0] == span@[0]@);
            assert(sv.last() == span@[last as int]@);
        }
        let old_oid: &str = span[0].old.as_str();
        let new_oid: &str = span[last].new.as_str();
        let expected = ExpectedTransition::between(Some(old_oid), Some(new_oid));
        let none: [&str; 0] = [];
        proof {
            assert(strs(none@) =~= seq![]);
        }
        let others = self.consume_common_refs(&logs.files, &expected, &none);
        push_changes(&mut changes, others);
        let orig = self.consume_aux_refs_for_head_move(&logs.files, old_oid, new_oid);
        push_changes(&mut changes, orig);
        self.told_changes(changes)
    }

    /// Tells the one record of a command that moves `HEAD` once.
    fn consume_head_transition_for_command(
        &mut self,
        logs: &RefLogs,
        worktree: Option<&str>,
        prefixes: &[&str],
        expected: &ExpectedTransition,
    ) -> (r: Vec<RefChange>)
        ensures
            final(self).family == old(self).family,
            (final(self)@, views(r@)) == span_told(
                looked_at_head(old(self)@, *logs, opt_str(worktree)),
                *logs,
                old(self).family.0@,
                head_step(
                    looked_at_head(old(self)@, *logs, opt_str(worktree)),
                    *logs,
                    opt_str(worktree),
                    strs(prefixes@),
                    expected@,
                ),
            ),
    {
        let ghost c0 = looked_at_head(self@, *logs, opt_str(worktree));
        let span = self.take_span(logs, worktree, prefixes, prefixes, expected, false);
        self.tell_span(logs, span, Ghost(c0))
    }

    /// Tells the records of a command that moves `HEAD` step by step.
    fn consume_head_span_for_command(
        &mut self,
        logs: &RefLogs,
        worktree: Option<&str>,
        prefixes: &[&str],
        expected: &ExpectedTransition,
    ) -> (r: Vec<RefChange>)
        ensures
            final(self).family == old(self).family,
            (final(self)@, views(r@)) == span_told(
                looked_at_head(old(self)@, *logs, opt_str(worktree)),
                *logs,
                old(self).family.0@,
                head_span(
                    looked_at_head(old(self)@, *logs, opt_str(worktree)),
                    *logs,
                    opt_str(worktree),
                    strs(prefixes@),
                    strs(prefixes@),
                    expected@,
                ),
            ),
    {
        let ghost c0 = looked_at_head(self@, *logs, opt_str(worktree));
        let span = self.take_span(logs, worktree, prefixes, prefixes, expected, true);
        self.tell_span(logs, span, Ghost(c0))
    }

    /// Tells the records of a rebase.
    fn consume_rebase_transition(
        &mut self,
        logs: &RefLogs,
        worktree: Option<&str>,
        expected: &ExpectedTransition,
    ) -> (r: Vec<RefChange>)
        ensures
            final(self).family == old(self).family,
            (final(self)@, views(r@)) == rebase_told(
                looked_at_head(old(self)@, *logs, opt_str(worktree)),
                *logs,
                old(self).family.0@,
                head_span(
                    looked_at_head(old(self)@, *logs, opt_str(worktree)),
                    *logs,
                    opt_str(worktree),
                    seq!["rebase"@, "checkout:"@],
                    seq!["rebase"@],
                    expected@,
                ),
            ),
    {
        let first_prefixes: [&str; 2] = ["rebase", "checkout:"];
        let rest_prefixes: [&str; 1] = ["rebase"];
        let none: [&str; 0] = [];
        proof {
            assert(strs(first_prefixes@) =~= seq!["rebase"@, "checkout:"@]);
            assert(strs(rest_prefixes@) =~= seq!["rebase"@]);
            assert(strs(none@) =~= seq![]);
        }
        let span = self.take_span(
            logs,
            worktree,
            &first_prefixes,
            &rest_prefixes,
            expected,
            true,
        );
        if span.len() == 0 {
            let out: Vec<RefChange> = Vec::new();
            proof {
                assert(views(out@) =~= seq![]);
            }
            return out;
        }
        let ghost sv = views(span@);
        let mut changes = span_changes(&span);
        let last: usize = span.len() - 1;
        proof {
            assert(sv[0] == span@[0]@);
            assert(sv.last() == span@[last as int]@);
        }
        let old_oid: &str = span[0].old.as_str();
        let new_oid: &str = span[last].new.as_str();
        let same_way = ExpectedTransition::between(Some(old_oid), Some(new_oid));
        let found = self.consume_common_refs(&logs.files, &same_way, &none);
        push_changes(&mut changes, found);
        let same_end = ExpectedTransition::between(None, Some(new_oid));
        let found = self.consume_common_refs(&logs.files, &same_end, &rest_prefixes);
        push_changes(&mut changes, found);
        self.told_changes(changes)
    }
}

fn clone_entry(e: &CursorEntry) -> (r: CursorEntry)
    ensures
        r@ == e@,
{
    CursorEntry {
        key: e.key.clone(),
        reference: e.reference.clone(),
        old: e.old.clone(),
        new: e.new.clone(),
        message: e.message.clone(),
        end_offset: e.end_offset,
    }
}

fn span_changes(span: &Vec<CursorEntry>) -> (r: Vec<RefChange>)
    ensures
        views(r@) == changes_of(views(span@)),
{
    let mut out: Vec<RefChange> = Vec::new();
    let mut i: usize = 0;
    while i < span.len()
        invariant
            i <= span@.len(),
            out@.len() == i,
            forall|k: int| 0 <= k < i ==> (#[trigger] out@[k])@ == change_of(span@[k]@),
        decreases span.len() - i,
    {
        out.push(entry_to_ref_change(&span[i]));
        i += 1;
    }
    proof {
        assert(views(out@) =~= changes_of(views(span@)));
    }
    out
}

// ----------------------------------------------------------------------- stashes

/// The length of what stands in the place of a ref's reflog, where there is something.
pub open spec fn log_len_of(files: FileTree, dir: Seq<char>, reference: Seq<char>) -> Option<nat> {
    files.size_at(log_path_of(dir, reference))
}

/// Why the length of a ref's reflog is not known.
pub open spec fn log_len_failure(files: FileTree, dir: Seq<char>, reference: Seq<char>) -> Option<
    Seq<char>,
> {
    files.size_failure_at(log_path_of(dir, reference))
}

/// The cursor with the offset of a ref's reflog at its end; a missing reflog has none.
/// Where its length is not known, that is a failure.
pub open spec fn advanced_to_end(
    c: CursorView,
    files: FileTree,
    dir: Seq<char>,
    reference: Seq<char>,
) -> CursorView {
    let key = common_key_of(reference);
    if log_len_failure(files, dir, reference) is Some {
        failed(c, log_len_failure(files, dir, reference))
    } else {
        CursorView {
            offsets: match log_len_of(files, dir, reference) {
                Some(n) => c.offsets.insert(key, n as u64),
                None => c.offsets.remove(key),
            },
            ..c
        }
    }
}

/// The stashes that the stash's reflog told up to an offset, oldest first.
pub open spec fn logged_stashes(entries: Seq<EntryView>, cursor: u64) -> Seq<Seq<char>>
    decreases entries.len(),
{
    if entries.len() == 0 {
        seq![]
    } else {
        let before = logged_stashes(entries.drop_last(), cursor);
        if entries.last().end_offset <= cursor && is_real_oid(entries.last().new) {
            before.push(entries.last().new)
        } else {
            before
        }
    }
}

/// The n-th newest stash: from the stack, or else from the reflog as far as it has
/// been told.
pub open spec fn nth_stash(c: CursorView, files: FileTree, dir: Seq<char>, n: nat) -> Option<
    Seq<char>,
> {
    if n < c.stash.len() {
        Some(c.stash[n as int])
    } else {
        let key = common_key_of("refs/stash"@);
        let told = logged_stashes(
            entries_of(
                log_bytes_of(files, log_path_of(dir, "refs/stash"@)),
                key,
                "refs/stash"@,
                Some(0),
            ),
            match offset_at(c, key) {
                Some(o) => o,
                None => u64::MAX,
            },
        );
        if n < told.len() {
            Some(told[told.len() - 1 - n])
        } else {
            None
        }
    }
}

/// Why the n-th newest stash is not known: it is not on the stack, and the reflog cannot be
/// read.
pub open spec fn nth_stash_failure(c: CursorView, files: FileTree, dir: Seq<char>, n: nat) -> Option<
    Seq<char>,
> {
    if n < c.stash.len() {
        None
    } else {
        files.failure_at(log_path_of(dir, "refs/stash"@))
    }
}

/// Why the object that the name of a stash stands for is not known.
pub open spec fn stash_failure(
    c: CursorView,
    files: FileTree,
    dir: Seq<char>,
    name: Option<Seq<char>>,
) -> Option<Seq<char>> {
    match name {
        None => nth_stash_failure(c, files, dir, 0),
        Some(t) => if is_oid(t) {
            None
        } else if t == "stash"@ || t == "refs/stash"@ {
            nth_stash_failure(c, files, dir, 0)
        } else {
            match stash_index_of(t) {
                Some(n) => nth_stash_failure(c, files, dir, n),
                None => None,
            }
        },
    }
}

/// The object that the name of a stash stands for: an object id for itself, `stash`
/// for the newest, `stash@{n}` for the n-th newest. No name stands for the newest.
pub open spec fn stash_named(
    c: CursorView,
    files: FileTree,
    dir: Seq<char>,
    name: Option<Seq<char>>,
) -> Option<Seq<char>> {
    match name {
        None => nth_stash(c, files, dir, 0),
        Some(t) => if is_oid(t) {
            Some(t)
        } else if t == "stash"@ || t == "refs/stash"@ {
            nth_stash(c, files, dir, 0)
        } else {
            match stash_index_of(t) {
                Some(n) => nth_stash(c, files, dir, n),
                None => None,
            }
        },
    }
}

/// The position that the name of a stash gives.
pub open spec fn stash_position(name: Option<Seq<char>>) -> Option<nat> {
    match name {
        None => Some(0),
        Some(t) => if t == "stash"@ || t == "refs/stash"@ {
            Some(0)
        } else {
            stash_index_of(t)
        },
    }
}

fn stash_target_index(target: Option<&str>) -> (r: Option<usize>)
    ensures
        match r {
            Some(n) => stash_position(opt_str(target)) == Some(n as nat),
            None => stash_position(opt_str(target)) is None,
        },
{
    match target {
        None => Some(0),
        Some(t) => if str_eq(t, "stash") || str_eq(t, "refs/stash") {
            Some(0)
        } else {
            stash_index(t)
        },
    }
}

/// The first position of a text.
pub open spec fn first_position(s: Seq<Seq<char>>, x: Seq<char>) -> Option<int>
    decreases s.len(),
{
    if s.len() == 0 {
        None
    } else {
        match first_position(s.drop_last(), x) {
            Some(k) => Some(k),
            None => if s.last() == x {
                Some(s.len() - 1)
            } else {
                None
            },
        }
    }
}

fn position_of(v: &Vec<String>, x: &str) -> (r: Option<usize>)
    ensures
        match r {
            Some(k) => k < v@.len() && first_position(texts(v@), x@) == Some(k as int),
            None => first_position(texts(v@), x@) is None,
        },
{
    let ghost ts = texts(v@);
    let mut i: usize = 0;
    let mut found: Option<usize> = None;
    proof {
        assert(ts.take(0) =~= seq![]);
    }
    while i < v.len()
        invariant
            i <= v@.len(),
            ts == texts(v@),
            match found {
                Some(k) => k < v@.len() && first_position(ts.take(i as int), x@) == Some(k as int),
                None => first_position(ts.take(i as int), x@) is None,
            },
        decreases v.len() - i,
    {
        proof {
            assert(ts.take(i + 1).drop_last() =~= ts.take(i as int));
            assert(ts.take(i + 1).last() == v@[i as int]@);
        }
        if found.is_none() && str_eq(v[i].as_str(), x) {
            found = Some(i);
        }
        i += 1;
    }
    proof {
        assert(ts.take(i as int) =~= ts);
    }
    found
}

/// The stack with a stash put on top, unless it is there or is no object.
pub open spec fn stash_pushed(stack: Seq<Seq<char>>, oid: Seq<char>) -> Seq<Seq<char>> {
    if is_real_oid(oid) && !stack.contains(oid) {
        seq![oid] + stack
    } else {
        stack
    }
}

/// The stack without a stash: the one at the position, where it is there, else the
/// first one.
pub open spec fn stash_removed(stack: Seq<Seq<char>>, position: Option<nat>, oid: Seq<char>) -> Seq<
    Seq<char>,
> {
    if position is Some && position->0 < stack.len() && stack[position->0 as int] == oid {
        stack.remove(position->0 as int)
    } else {
        match first_position(stack, oid) {
            Some(k) => stack.remove(k),
            None => stack,
        }
    }
}

/// The stack keeps no stash twice when one is put on it or taken off it.
pub proof fn law_stash_stack_distinct(
    stack: Seq<Seq<char>>,
    oid: Seq<char>,
    position: Option<nat>,
)
    requires
        stack.no_duplicates(),
    ensures
        stash_pushed(stack, oid).no_duplicates(),
        stash_removed(stack, position, oid).no_duplicates(),
        !stash_removed(stack, position, oid).contains(oid),
{
    let pushed = stash_pushed(stack, oid);
    assert forall|i: int, j: int| 0 <= i < pushed.len() && 0 <= j < pushed.len() && i
        != j implies pushed[i] != pushed[j] by {
        if pushed.len() > stack.len() {
            if i > 0 {
                assert(pushed[i] == stack[i - 1]);
            }
            if j > 0 {
                assert(pushed[j] == stack[j - 1]);
            }
        }
    }
    lemma_first_position(stack, oid);
    let k = if position is Some && position->0 < stack.len() && stack[position->0 as int] == oid {
        position->0 as int
    } else if first_position(stack, oid) is Some {
        first_position(stack, oid)->0
    } else {
        -1
    };
    if k >= 0 {
        let left = stack.remove(k);
        assert forall|i: int, j: int| 0 <= i < left.len() && 0 <= j < left.len() && i
            != j implies left[i] != left[j] by {
            let a = if i < k { i } else { i + 1 };
            let b = if j < k { j } else { j + 1 };
            assert(left[i] == stack[a] && left[j] == stack[b]);
        }
        if left.contains(oid) {
            let i = left.index_of(oid);
            let a = if i < k { i } else { i + 1 };
            assert(left[i] == stack[a]);
            assert(stack[k] == oid);
        }
    }
}

proof fn lemma_first_position(s: Seq<Seq<char>>, x: Seq<char>)
    ensures
        match first_position(s, x) {
            Some(k) => 0 <= k < s.len() && s[k] == x,
            None => !s.contains(x),
        },
    decreases s.len(),
{
    if s.len() > 0 {
        lemma_first_position(s.drop_last(), x);
        if first_position(s, x) is None && s.contains(x) {
            let k = s.index_of(x);
            if k < s.len() - 1 {
                assert(s.drop_last()[k] == x);
            }
        }
    }
}

impl RefCursor {
    fn advance_common_ref_cursor_to_log_end(&mut self, files: &FileTree, reference: &str)
        ensures
            final(self)@ == advanced_to_end(old(self)@, *files, old(self).family.0@, reference@),
            final(self).family == old(self).family,
    {
        let key = common_key(reference);
        let path = log_path(self.family.0.as_str(), reference);
        let why = files.size_failure(path.as_str());
        if why.is_some() {
            self.fail(why);
            return;
        }
        match files.size(path.as_str()) {
            Some(n) => {
                self.offsets.insert(key, n);
            },
            None => {
                self.offsets.remove(key.as_str());
            },
        }
    }

    fn nth_stash(&self, files: &FileTree, index: usize) -> (r: Option<String>)
        ensures
            opt_view(r) == nth_stash(self@, *files, self.family.0@, index as nat),
    {
        if index < self.stash_stack.len() {
            proof {
                assert(texts(self.stash_stack@)[index as int] == self.stash_stack@[index as int]@);
            }
            return Some(self.stash_stack[index].clone());
        }
        let key = common_key("refs/stash");
        let path = log_path(self.family.0.as_str(), "refs/stash");
        let entries = log_entries(files, path.as_str(), key.as_str(), "refs/stash", Some(0));
        let cursor: u64 = match self.offset(key.as_str()) {
            Some(o) => o,
            None => u64::MAX,
        };
        let ghost es = views(entries@);
        let mut told: Vec<String> = Vec::new();
        let mut i: usize = 0;
        proof {
            assert(es.take(0) =~= seq![]);
            assert(texts(told@) =~= seq![]);
        }
        while i < entries.len()
            invariant
                i <= entries@.len(),
                es == views(entries@),
                texts(told@) == logged_stashes(es.take(i as int), cursor),
            decreases entries.len() - i,
        {
            proof {
                assert(es.take(i + 1).drop_last() =~= es.take(i as int));
                assert(es.take(i + 1).last() == entries@[i as int]@);
            }
            if entries[i].end_offset <= cursor && is_valid_non_zero_oid(entries[i].new.as_str()) {
                let oid = entries[i].new.clone();
                proof {
                    lemma_texts_push(told@, oid);
                }
                told.push(oid);
            }
            i += 1;
        }
        proof {
            assert(es.take(i as int) =~= es);
        }
        if index < told.len() {
            let at: usize = told.len() - 1 - index;
            proof {
                assert(texts(told@)[at as int] == told@[at as int]@);
            }
            Some(told[at].clone())
        } else {
            None
        }
    }

    fn why_no_nth_stash(&self, files: &FileTree, index: usize) -> (r: Option<String>)
        ensures
            opt_view(r) == nth_stash_failure(self@, *files, self.family.0@, index as nat),
    {
        if index < self.stash_stack.len() {
            None
        } else {
            files.failure(log_path(self.family.0.as_str(), "refs/stash").as_str())
        }
    }

    fn why_no_stash_target(&self, files: &FileTree, target: Option<&str>) -> (r: Option<String>)
        ensures
            opt_view(r) == stash_failure(self@, *files, self.family.0@, opt_str(target)),
    {
        match target {
            None => self.why_no_nth_stash(files, 0),
            Some(t) => if is_valid_git_oid(t) {
                None
            } else if str_eq(t, "stash") || str_eq(t, "refs/stash") {
                self.why_no_nth_stash(files, 0)
            } else {
                match stash_index(t) {
                    Some(n) => self.why_no_nth_stash(files, n),
                    None => None,
                }
            },
        }
    }

    fn resolve_stash_target_at_cursor(&self, files: &FileTree, target: Option<&str>) -> (r: Option<
        String,
    >)
        ensures
            opt_view(r) == stash_named(self@, *files, self.family.0@, opt_str(target)),
    {
        match target {
            None => self.nth_stash(files, 0),
            Some(t) => if is_valid_git_oid(t) {
                Some(t.to_owned())
            } else if str_eq(t, "stash") || str_eq(t, "refs/stash") {
                self.nth_stash(files, 0)
            } else {
                match stash_index(t) {
                    Some(n) => self.nth_stash(files, n),
                    None => None,
                }
            },
        }
    }

    fn push_stash(&mut self, oid: &str)
        ensures
            final(self)@ == (CursorView {
                stash: stash_pushed(old(self)@.stash, oid@),
                ..old(self)@
            }),
            final(self).family == old(self).family,
    {
        if is_valid_non_zero_oid(oid) && !list_contains(self.stash_stack.as_slice(), oid) {
            let ghost before = texts(self.stash_stack@);
            self.stash_stack.insert(0, oid.to_owned());
            proof {
                assert(texts(self.stash_stack@) =~= seq![oid@] + before);
            }
        }
    }

    fn remove_stash_at(&mut self, at: usize)
        requires
            at < old(self)@.stash.len(),
        ensures
            final(self)@ == (CursorView { stash: old(self)@.stash.remove(at as int), ..old(self)@ }),
            final(self).family == old(self).family,
    {
        let ghost before = texts(self.stash_stack@);
        let _gone = self.stash_stack.remove(at);
        proof {
            assert(texts(self.stash_stack@) =~= before.remove(at as int));
        }
    }

    fn remove_stash_from_stack(&mut self, target_index: Option<usize>, target_oid: &str)
        ensures
            final(self)@ == (CursorView {
                stash: stash_removed(
                    old(self)@.stash,
                    match target_index {
                        Some(n) => Some(n as nat),
                        None => None,
                    },
                    target_oid@,
                ),
                ..old(self)@
            }),
            final(self).family == old(self).family,
    {
        if let Some(index) = target_index {
            if index < self.stash_stack.len() {
                proof {
                    assert(texts(self.stash_stack@)[index as int]
                        == self.stash_stack@[index as int]@);
                }
                if str_eq(self.stash_stack[index].as_str(), target_oid) {
                    self.remove_stash_at(index);
                    return;
                }
            }
        }
        if let Some(position) = position_of(&self.stash_stack, target_oid) {
            self.remove_stash_at(position);
        }
    }
}

/// What telling a stash that takes one off the stack gives: the cursor, the
/// changes and the stash. It is told where the stash's reflog has become shorter
/// than it was, or is gone.
pub open spec fn stash_taken(
    c: CursorView,
    files: FileTree,
    dir: Seq<char>,
    name: Option<Seq<char>>,
    known: Option<Seq<char>>,
) -> (CursorView, Seq<RefChangeView>, Option<Seq<char>>) {
    let rewritten = match (offset_at(c, common_key_of("refs/stash"@)), log_len_of(
        files,
        dir,
        "refs/stash"@,
    )) {
        (Some(o), Some(n)) => n < o,
        (Some(_), None) => true,
        _ => false,
    };
    let target = if known is Some {
        known
    } else {
        stash_named(c, files, dir, name)
    };
    if log_len_failure(files, dir, "refs/stash"@) is Some {
        (failed(c, log_len_failure(files, dir, "refs/stash"@)), seq![], known)
    } else if !rewritten {
        (c, seq![], known)
    } else {
        match target {
            None => (advanced_to_end(c, files, dir, "refs/stash"@), seq![], known),
            Some(oid) => {
                let left = stash_removed(c.stash, stash_position(name), oid);
                let changes = if c.stash.len() > 0 && c.stash[0] == oid {
                    seq![
                        RefChangeView {
                            reference: "refs/stash"@,
                            old: oid,
                            new: if left.len() > 0 {
                                left[0]
                            } else {
                                zero_oid_of()
                            },
                        },
                    ]
                } else {
                    seq![]
                };
                (
                    advanced_to_end(
                        CursorView { stash: left, ..c },
                        files,
                        dir,
                        "refs/stash"@,
                    ),
                    changes,
                    Some(oid),
                )
            },
        }
    }
}

impl RefCursor {
    fn consume_destructive_stash_operation(
        &mut self,
        files: &FileTree,
        target: Option<&str>,
        known: Option<String>,
    ) -> (r: (Vec<RefChange>, Option<String>))
        ensures
            final(self).family == old(self).family,
            (final(self)@, views(r.0@), opt_view(r.1)) == stash_taken(
                old(self)@,
                *files,
                old(self).family.0@,
                opt_str(target),
                opt_view(known),
            ),
    {
        let mut changes: Vec<RefChange> = Vec::new();
        proof {
            assert(views(changes@) =~= seq![]);
        }
        let key = common_key("refs/stash");
        let path = log_path(self.family.0.as_str(), "refs/stash");
        let why = files.size_failure(path.as_str());
        if why.is_some() {
            self.fail(why);
            return (changes, known);
        }
        let rewritten = match (self.offset(key.as_str()), files.size(path.as_str())) {
            (Some(cursor), Some(len)) => len < cursor,
            (Some(_), None) => true,
            _ => false,
        };
        if !rewritten {
            return (changes, known);
        }
        let resolved = match known {
            Some(oid) => Some(oid),
            None => self.resolve_stash_target_at_cursor(files, target),
        };
        let target_oid = match resolved {
            Some(oid) => oid,
            None => {
                self.advance_common_ref_cursor_to_log_end(files, "refs/stash");
                return (changes, None);
            },
        };
        let target_index = stash_target_index(target);
        let was_top = if self.stash_stack.len() > 0 {
            proof {
                assert(texts(self.stash_stack@)[0] == self.stash_stack@[0]@);
            }
            str_eq(self.stash_stack[0].as_str(), target_oid.as_str())
        } else {
            false
        };
        self.remove_stash_from_stack(target_index, target_oid.as_str());
        if was_top {
            let new_top = if self.stash_stack.len() > 0 {
                proof {
                    assert(texts(self.stash_stack@)[0] == self.stash_stack@[0]@);
                }
                self.stash_stack[0].clone()
            } else {
                zero_oid()
            };
            let change = RefChange {
                reference: "refs/stash".to_owned(),
                old: target_oid.clone(),
                new: new_top,
            };
            proof {
                assert(views(changes@.push(change)) =~= seq![change@]);
            }
            changes.push(change);
        }
        self.advance_common_ref_cursor_to_log_end(files, "refs/stash");
        (changes, Some(target_oid))
    }
}

// ---------------------------------------------------------------------- branches

/// How a branch got its name.
#[derive(Clone, Copy, PartialEq, Eq, Structural)]
pub enum BranchLifecycleKind {
    Rename,
    Copy,
}

/// How a reflog message about a branch that got its name begins.
pub open spec fn lifecycle_prefix(kind: BranchLifecycleKind) -> Seq<char> {
    match kind {
        BranchLifecycleKind::Rename => "Branch: renamed "@,
        BranchLifecycleKind::Copy => "Branch: copied "@,
    }
}

/// The old and the new name that such a message tells.
pub open spec fn lifecycle_names(kind: BranchLifecycleKind, message: Seq<char>) -> Option<
    (Seq<char>, Seq<char>),
> {
    if has_prefix(message, lifecycle_prefix(kind)) {
        split_once_of(message.skip(lifecycle_prefix(kind).len() as int), " to "@)
    } else {
        None
    }
}

fn parse_branch_lifecycle_message(kind: BranchLifecycleKind, message: &str) -> (r: Option<
    (String, String),
>)
    ensures
        match r {
            Some((old, new)) => lifecycle_names(kind, message@) == Some((old@, new@)),
            None => lifecycle_names(kind, message@) is None,
        },
{
    let prefix: &str = match kind {
        BranchLifecycleKind::Rename => "Branch: renamed ",
        BranchLifecycleKind::Copy => "Branch: copied ",
    };
    match strip_prefix(message, prefix) {
        Some(rest) => split_once(rest.as_str(), " to "),
        None => None,
    }
}

/// The old name and the commit of the newest record that tells how a branch got
/// its name.
pub open spec fn lifecycle_among(
    records: Seq<RecordView>,
    kind: BranchLifecycleKind,
    reference: Seq<char>,
) -> Option<(Seq<char>, Seq<char>)>
    decreases records.len(),
{
    if records.len() == 0 {
        None
    } else {
        match lifecycle_names(kind, records.last().message) {
            Some((old, new)) => if new == reference {
                Some((old, records.last().new))
            } else {
                lifecycle_among(records.drop_last(), kind, reference)
            },
            None => lifecycle_among(records.drop_last(), kind, reference),
        }
    }
}

/// The old name and the commit of a branch that got its name by a command.
pub open spec fn lifecycle_of(
    files: FileTree,
    dir: Seq<char>,
    kind: BranchLifecycleKind,
    reference: Seq<char>,
) -> Option<(Seq<char>, Seq<char>)> {
    lifecycle_among(
        records_of(log_bytes_of(files, log_path_of(dir, reference)), Some(0)),
        kind,
        reference,
    )
}

/// The commit that a ref stands for, where it is one.
pub open spec fn real_ref(refs: Map<Seq<char>, Seq<char>>, reference: Seq<char>) -> Option<
    Seq<char>,
> {
    if refs.dom().contains(reference) && is_real_oid(refs[reference]) {
        Some(refs[reference])
    } else {
        None
    }
}

/// The cursor and the changes after a branch has been renamed or copied. The
/// source is the one named, or the one that the reflog tells; its commit is the
/// one known, or the one that the reflog tells.
pub open spec fn relocation_told(
    c: CursorView,
    files: FileTree,
    dir: Seq<char>,
    refs: Map<Seq<char>, Seq<char>>,
    kind: BranchLifecycleKind,
    old_reference: Option<Seq<char>>,
    new_reference: Seq<char>,
) -> (CursorView, Seq<RefChangeView>) {
    if files.failure_at(log_path_of(dir, new_reference)) is Some {
        (looked_at(c, files, dir, new_reference), seq![])
    } else {
        readable_relocation_told(c, files, dir, refs, kind, old_reference, new_reference)
    }
}

/// The cursor and the changes after a branch has been renamed or copied, where the reflog
/// of its new name can be read.
pub open spec fn readable_relocation_told(
    c: CursorView,
    files: FileTree,
    dir: Seq<char>,
    refs: Map<Seq<char>, Seq<char>>,
    kind: BranchLifecycleKind,
    old_reference: Option<Seq<char>>,
    new_reference: Seq<char>,
) -> (CursorView, Seq<RefChangeView>) {
    let lifecycle = lifecycle_of(files, dir, kind, new_reference);
    let source = if old_reference is Some {
        old_reference
    } else {
        match lifecycle {
            Some((old, _)) => Some(old),
            None => None,
        }
    };
    let source_oid = if source is Some && refs.dom().contains(source->0) {
        Some(refs[source->0])
    } else {
        match lifecycle {
            Some((_, oid)) => Some(oid),
            None => None,
        }
    };
    if source_oid is None || !is_real_oid(source_oid->0) {
        (advanced_to_end(c, files, dir, new_reference), seq![])
    } else {
        let oid = source_oid->0;
        let gone = kind == BranchLifecycleKind::Rename && source is Some && source->0
            != new_reference;
        let c1 = if gone {
            CursorView { offsets: c.offsets.remove(common_key_of(source->0)), ..c }
        } else {
            c
        };
        let removed = if gone {
            seq![RefChangeView { reference: source->0, old: oid, new: zero_oid_of() }]
        } else {
            seq![]
        };
        let new_old = match real_ref(refs, new_reference) {
            Some(o) => o,
            None => zero_oid_of(),
        };
        let made = if new_old != oid {
            seq![RefChangeView { reference: new_reference, old: new_old, new: oid }]
        } else {
            seq![]
        };
        (advanced_to_end(c1, files, dir, new_reference), removed + made)
    }
}

/// The cursor and the changes after branches have been deleted.
pub open spec fn deletions_told(
    c: CursorView,
    refs: Map<Seq<char>, Seq<char>>,
    names: Seq<Seq<char>>,
) -> (CursorView, Seq<RefChangeView>)
    decreases names.len(),
{
    if names.len() == 0 {
        (c, seq![])
    } else {
        let (c1, changes) = deletions_told(c, refs, names.drop_last());
        let name = names.last();
        (
            CursorView { offsets: c1.offsets.remove(common_key_of(name)), ..c1 },
            match real_ref(refs, name) {
                Some(oid) => changes.push(
                    RefChangeView { reference: name, old: oid, new: zero_oid_of() },
                ),
                None => changes,
            },
        )
    }
}

/// The cursor and the changes after `git branch`.
pub open spec fn branch_told(
    c: CursorView,
    files: FileTree,
    dir: Seq<char>,
    refs: Map<Seq<char>, Seq<char>>,
    command: BranchCommandView,
) -> (CursorView, Seq<RefChangeView>) {
    let (c1, changes) = match command {
        BranchCommandView::CreateOrReset(reference) => match find_common(
            looked_at(c, files, dir, reference),
            files,
            dir,
            reference,
            any_transition(),
            seq!["branch:"@],
        ) {
            Some(e) => (consumed(looked_at(c, files, dir, reference), e), seq![change_of(e)]),
            None => (looked_at(c, files, dir, reference), seq![]),
        },
        BranchCommandView::Delete(names) => deletions_told(c, refs, names),
        BranchCommandView::Rename(old, new) => relocation_told(
            c,
            files,
            dir,
            refs,
            BranchLifecycleKind::Rename,
            old,
            new,
        ),
        BranchCommandView::Copy(old, new) => relocation_told(
            c,
            files,
            dir,
            refs,
            BranchLifecycleKind::Copy,
            old,
            new,
        ),
        BranchCommandView::Nothing => (c, seq![]),
    };
    (c1, unless_failed(c1, changes))
}

fn real_ref_of(state: &FamilyState, reference: &str) -> (r: Option<String>)
    ensures
        opt_view(r) == real_ref(text_values(state.refs@), reference@),
{
    match state.refs.get(reference) {
        Some(oid) => {
            proof {
                assert(text_values(state.refs@)[reference@] == oid@);
            }
            if is_valid_non_zero_oid(oid.as_str()) {
                Some(oid.clone())
            } else {
                None
            }
        },
        None => None,
    }
}

impl RefCursor {
    fn latest_branch_lifecycle_record(
        &self,
        files: &FileTree,
        reference: &str,
        kind: BranchLifecycleKind,
    ) -> (r: Option<(String, String)>)
        ensures
            match r {
                Some((old, oid)) => lifecycle_of(*files, self.family.0@, kind, reference@) == Some(
                    (old@, oid@),
                ),
                None => lifecycle_of(*files, self.family.0@, kind, reference@) is None,
            },
    {
        let path = log_path(self.family.0.as_str(), reference);
        let empty: Vec<u8> = Vec::new();
        proof {
            assert(empty@ =~= seq![]);
        }
        let records = match files.read(path.as_str()) {
            Some(bytes) => read_reflog_records(bytes.as_slice(), Some(0)),
            None => read_reflog_records(empty.as_slice(), Some(0)),
        };
        let ghost rs = views(records@);
        let mut n: usize = records.len();
        proof {
            assert(rs.take(n as int) =~= rs);
        }
        while n > 0
            invariant
                n <= records@.len(),
                rs == views(records@),
                lifecycle_of(*files, self.family.0@, kind, reference@) == lifecycle_among(
                    rs.take(n as int),
                    kind,
                    reference@,
                ),
            decreases n,
        {
            proof {
                assert(rs.take(n as int).drop_last() =~= rs.take(n - 1));
                assert(rs.take(n as int).last() == records@[n - 1]@);
            }
            if let Some((old, new)) = parse_branch_lifecycle_message(
                kind,
                records[n - 1].message.as_str(),
            ) {
                if str_eq(new.as_str(), reference) {
                    return Some((old, records[n - 1].new.clone()));
                }
            }
            n -= 1;
        }
        None
    }

    fn enrich_branch_relocation(
        &mut self,
        files: &FileTree,
        state: &FamilyState,
        kind: BranchLifecycleKind,
        old_reference: Option<String>,
        new_reference: &str,
    ) -> (r: Vec<RefChange>)
        ensures
            final(self).family == old(self).family,
            (final(self)@, views(r@)) == relocation_told(
                old(self)@,
                *files,
                old(self).family.0@,
                text_values(state.refs@),
                kind,
                opt_view(old_reference),
                new_reference@,
            ),
    {
        let mut changes: Vec<RefChange> = Vec::new();
        proof {
            assert(views(changes@) =~= seq![]);
        }
        let path = log_path(self.family.0.as_str(), new_reference);
        if files.failure(path.as_str()).is_some() {
            self.look_at(files, new_reference);
            return changes;
        }
        let lifecycle = self.latest_branch_lifecycle_record(files, new_reference, kind);
        let (told_old, told_oid) = match lifecycle {
            Some((old, oid)) => (Some(old), Some(oid)),
            None => (None, None),
        };
        let source = match old_reference {
            Some(reference) => Some(reference),
            None => told_old,
        };
        let known = match &source {
            Some(reference) => match state.refs.get(reference.as_str()) {
                Some(oid) => {
                    proof {
                        assert(text_values(state.refs@)[reference@] == oid@);
                    }
                    Some(oid.clone())
                },
                None => None,
            },
            None => None,
        };
        let source_oid = match known {
            Some(oid) => Some(oid),
            None => told_oid,
        };
        let oid = match source_oid {
            Some(oid) => oid,
            None => {
                self.advance_common_ref_cursor_to_log_end(files, new_reference);
                return changes;
            },
        };
        if !is_valid_non_zero_oid(oid.as_str()) {
            self.advance_common_ref_cursor_to_log_end(files, new_reference);
            return changes;
        }
        if kind == BranchLifecycleKind::Rename {
            if let Some(reference) = &source {
                if !str_eq(reference.as_str(), new_reference) {
                    let key = common_key(reference.as_str());
                    self.offsets.remove(key.as_str());
                    let change = RefChange {
                        reference: reference.clone(),
                        old: oid.clone(),
                        new: zero_oid(),
                    };
                    proof {
                        assert(views(changes@.push(change)) =~= seq![change@]);
                    }
                    changes.push(change);
                }
            }
        }
        let new_old = match real_ref_of(state, new_reference) {
            Some(o) => o,
            None => zero_oid(),
        };
        let ghost removed = views(changes@);
        if !str_eq(new_old.as_str(), oid.as_str()) {
            let change = RefChange {
                reference: new_reference.to_owned(),
                old: new_old,
                new: oid,
            };
            proof {
                assert(views(changes@.push(change)) =~= removed + seq![change@]);
            }
            changes.push(change);
        } else {
            proof {
                assert(removed + Seq::<RefChangeView>::empty() =~= removed);
            }
        }
        self.advance_common_ref_cursor_to_log_end(files, new_reference);
        changes
    }

    fn delete_branches(&mut self, state: &FamilyState, names: &Vec<String>) -> (r: Vec<RefChange>)
        ensures
            final(self).family == old(self).family,
            (final(self)@, views(r@)) == deletions_told(
                old(self)@,
                text_values(state.refs@),
                texts(names@),
            ),
    {
        let ghost all = texts(names@);
        let ghost c0 = self@;
        let ghost refs = text_values(state.refs@);
        let mut changes: Vec<RefChange> = Vec::new();
        let mut i: usize = 0;
        proof {
            assert(all.take(0) =~= seq![]);
            assert(views(changes@) =~= seq![]);
        }
        while i < names.len()
            invariant
                i <= names@.len(),
                all == texts(names@),
                refs == text_values(state.refs@),
                self.family == old(self).family,
                (self@, views(changes@)) == deletions_told(c0, refs, all.take(i as int)),
            decreases names.len() - i,
        {
            let name = &names[i];
            proof {
                assert(all.take(i + 1).drop_last() =~= all.take(i as int));
                assert(all.take(i + 1).last() == name@);
            }
            let key = common_key(name.as_str());
            self.offsets.remove(key.as_str());
            if let Some(old_oid) = real_ref_of(state, name.as_str()) {
                let change = RefChange {
                    reference: name.clone(),
                    old: old_oid,
                    new: zero_oid(),
                };
                proof {
                    lemma_views_push(changes@, change);
                }
                changes.push(change);
            }
            i += 1;
        }
        proof {
            assert(all.take(i as int) =~= all);
        }
        changes
    }

    fn enrich_branch(&mut self, files: &FileTree, state: &FamilyState, args: &[String]) -> (r: Vec<
        RefChange,
    >)
        ensures
            final(self).family == old(self).family,
            (final(self)@, views(r@)) == branch_told(
                old(self)@,
                *files,
                old(self).family.0@,
                text_values(state.refs@),
                branch_command_of(texts(args@)),
            ),
    {
        let changes = match parse_branch_command_spec(args) {
            BranchCommandSpec::CreateOrReset { reference } => {
                let prefixes: [&str; 1] = ["branch:"];
                proof {
                    assert(strs(prefixes@) =~= seq!["branch:"@]);
                }
                let any = ExpectedTransition::any();
                let mut changes: Vec<RefChange> = Vec::new();
                proof {
                    assert(views(changes@) =~= seq![]);
                }
                self.look_at(files, reference.as_str());
                if let Some(entry) = self.find_common_ref_entry(
                    files,
                    reference.as_str(),
                    &any,
                    &prefixes,
                ) {
                    self.consume_entry(&entry);
                    let change = entry_to_ref_change(&entry);
                    proof {
                        assert(views(changes@.push(change)) =~= seq![change@]);
                    }
                    changes.push(change);
                }
                changes
            },
            BranchCommandSpec::Delete { references } => self.delete_branches(state, &references),
            BranchCommandSpec::Rename {
                old_reference,
                new_reference,
            } => self.enrich_branch_relocation(
                files,
                state,
                BranchLifecycleKind::Rename,
                old_reference,
                new_reference.as_str(),
            ),
            BranchCommandSpec::Copy {
                old_reference,
                new_reference,
            } => self.enrich_branch_relocation(
                files,
                state,
                BranchLifecycleKind::Copy,
                old_reference,
                new_reference.as_str(),
            ),
            BranchCommandSpec::Nothing => {
                let changes: Vec<RefChange> = Vec::new();
                proof {
                    assert(views(changes@) =~= seq![]);
                }
                changes
            },
        };
        self.told_changes(changes)
    }
}

// ------------------------------------------------------------ update-ref and stash

/// The cursor and the changes after `git update-ref`: the record of the ref, and,
/// where that is a branch, the record of `HEAD` that made the same way; where it is
/// `HEAD`, those of the refs that made the same way.
pub open spec fn update_ref_told(
    c: CursorView,
    logs: RefLogs,
    dir: Seq<char>,
    worktree: Option<Seq<char>>,
    u: UpdateRefView,
) -> (CursorView, Seq<RefChangeView>) {
    let x = between_transition(u.old_oid, Some(u.new_oid));
    let (c1, changes) = if u.reference == "HEAD"@ {
        let c0 = looked_at_head(c, logs, worktree);
        match find_head(c0, logs, worktree, seq![], x) {
            Some(e) => {
                let (c2, others) = swept(
                    listed(consumed(c0, e), logs.files, dir),
                    logged_refs(logs.files, dir),
                    logs.files,
                    dir,
                    between_transition(Some(e.old), Some(e.new)),
                    seq![],
                );
                (c2, seq![change_of(e)] + others)
            },
            None => (c0, seq![]),
        }
    } else {
        let c0 = looked_at(c, logs.files, dir, u.reference);
        match find_common(c0, logs.files, dir, u.reference, x, seq![]) {
            Some(e) => {
                let c2 = looked_at_head(consumed(c0, e), logs, worktree);
                match find_head(
                    c2,
                    logs,
                    worktree,
                    seq![],
                    between_transition(Some(e.old), Some(e.new)),
                ) {
                    Some(h) => (consumed(c2, h), seq![change_of(e), change_of(h)]),
                    None => (c2, seq![change_of(e)]),
                }
            },
            None => (c0, seq![]),
        }
    };
    (c1, unless_failed(c1, changes))
}

/// The n-th argument, where there is one.
pub open spec fn nth_arg(args: Seq<Seq<char>>, n: int) -> Option<Seq<char>> {
    if 0 <= n < args.len() {
        Some(args[n])
    } else {
        None
    }
}

/// What `git stash` is asked to do.
pub open spec fn stash_kind_of(args: Seq<Seq<char>>) -> Seq<char> {
    if args.len() > 0 {
        args[0]
    } else {
        "push"@
    }
}

/// Whether `git stash` is asked to do something with a stash that it names.
pub open spec fn names_stash(kind: Seq<char>) -> bool {
    kind == "apply"@ || kind == "pop"@ || kind == "drop"@ || kind == "branch"@
}

/// The name of the stash that `git stash` is about.
pub open spec fn stash_name_of(args: Seq<Seq<char>>) -> Option<Seq<char>> {
    nth_arg(
        args,
        if stash_kind_of(args) == "branch"@ {
            2
        } else {
            1
        },
    )
}

/// The cursor, the changes and the stash after `git stash`. What was told before a failure
/// stays.
pub open spec fn stash_told(
    c: CursorView,
    logs: RefLogs,
    dir: Seq<char>,
    worktree: Option<Seq<char>>,
    refs: Map<Seq<char>, Seq<char>>,
    args: Seq<Seq<char>>,
    known: Option<Seq<char>>,
) -> (CursorView, Seq<RefChangeView>, Option<Seq<char>>) {
    let why = stash_failure(c, logs.files, dir, stash_name_of(args));
    if names_stash(stash_kind_of(args)) && why is Some {
        (failed(c, why), seq![], known)
    } else {
        known_stash_told(c, logs, dir, worktree, refs, args, known)
    }
}

/// The cursor, the changes and the stash after `git stash`, where the stash that it is about
/// can be looked up.
pub open spec fn known_stash_told(
    c: CursorView,
    logs: RefLogs,
    dir: Seq<char>,
    worktree: Option<Seq<char>>,
    refs: Map<Seq<char>, Seq<char>>,
    args: Seq<Seq<char>>,
    known: Option<Seq<char>>,
) -> (CursorView, Seq<RefChangeView>, Option<Seq<char>>) {
    let kind = stash_kind_of(args);
    let is_branch = kind == "branch"@;
    let target = if names_stash(kind) {
        stash_named(c, logs.files, dir, stash_name_of(args))
    } else {
        known
    };
    let (c1, changes, target1) = if kind == "push"@ || kind == "save"@ {
        let c0 = looked_at(c, logs.files, dir, "refs/stash"@);
        match find_common(c0, logs.files, dir, "refs/stash"@, any_transition(), seq![]) {
            Some(e) => (
                CursorView { stash: stash_pushed(c.stash, e.new), ..consumed(c0, e) },
                seq![change_of(e)],
                target,
            ),
            None => (c0, seq![], target),
        }
    } else if kind == "pop"@ || kind == "drop"@ {
        stash_taken(c, logs.files, dir, nth_arg(args, 1), target)
    } else {
        (c, seq![], target)
    };
    let looks_at_head = is_branch || ((kind == "apply"@ || kind == "pop"@) && !refs.dom().contains(
        "HEAD"@,
    ));
    let x = if is_branch {
        expected_from(refs, worktree is Some, texts(logs.working_logs@))
    } else {
        any_transition()
    };
    if looks_at_head {
        let c2 = looked_at_head(c1, logs, worktree);
        match find_head(c2, logs, worktree, seq![], x) {
            Some(h) => if message_ok(h.message, seq!["reset:"@, "checkout:"@]) {
                (consumed(c2, h), changes.push(change_of(h)), target1)
            } else {
                (c2, changes, target1)
            },
            None => (c2, changes, target1),
        }
    } else {
        (c1, changes, target1)
    }
}

impl RefCursor {
    fn enrich_update_ref(&mut self, logs: &RefLogs, worktree: Option<&str>, args: &[String]) -> (r:
        Result<Vec<RefChange>, GitAiError>)
        ensures
            final(self).family == old(self).family,
            match r {
                Ok(changes) => update_ref_of(texts(args@)) matches Ok(u) && (
                    final(self)@,
                    views(changes@),
                ) == update_ref_told(
                    old(self)@,
                    *logs,
                    old(self).family.0@,
                    opt_str(worktree),
                    u,
                ),
                Err(e) => update_ref_of(texts(args@)) == Err::<UpdateRefView, Seq<char>>(e@)
                    && final(self)@ == old(self)@,
            },
    {
        let u = match parse_update_ref_spec(args) {
            Ok(u) => u,
            Err(e) => {
                return Err(e);
            },
        };
        let none: [&str; 0] = [];
        let mut changes: Vec<RefChange> = Vec::new();
        proof {
            assert(strs(none@) =~= seq![]);
            assert(views(changes@) =~= seq![]);
        }
        let from: Option<&str> = match &u.old_oid {
            Some(o) => Some(o.as_str()),
            None => None,
        };
        let expected = ExpectedTransition::between(from, Some(u.new_oid.as_str()));
        if str_eq(u.reference.as_str(), "HEAD") {
            self.look_at_head(logs, worktree);
            if let Some(entry) = self.find_head_entry(logs, worktree, &none, &expected) {
                self.consume_entry(&entry);
                let change = entry_to_ref_change(&entry);
                proof {
                    assert(views(changes@.push(change)) =~= seq![change@]);
                }
                changes.push(change);
                let same_way = ExpectedTransition::between(
                    Some(entry.old.as_str()),
                    Some(entry.new.as_str()),
                );
                let others = self.consume_common_refs(&logs.files, &same_way, &none);
                push_changes(&mut changes, others);
            }
        } else {
            self.look_at(&logs.files, u.reference.as_str());
            if let Some(entry) = self.find_common_ref_entry(
                &logs.files,
                u.reference.as_str(),
                &expected,
                &none,
            ) {
                self.consume_entry(&entry);
                let change = entry_to_ref_change(&entry);
                proof {
                    assert(views(changes@.push(change)) =~= seq![change@]);
                }
                changes.push(change);
                let same_way = ExpectedTransition::between(
                    Some(entry.old.as_str()),
                    Some(entry.new.as_str()),
                );
                self.look_at_head(logs, worktree);
                if let Some(head) = self.find_head_entry(logs, worktree, &none, &same_way) {
                    self.consume_entry(&head);
                    let change = entry_to_ref_change(&head);
                    proof {
                        lemma_views_push(changes@, change);
                        assert(seq![change_of(entry@)].push(change_of(head@)) =~= seq![
                            change_of(entry@),
                            change_of(head@),
                        ]);
                    }
                    changes.push(change);
                }
            }
        }
        Ok(self.told_changes(changes))
    }

    fn enrich_stash(
        &mut self,
        logs: &RefLogs,
        worktree: Option<&str>,
        state: &FamilyState,
        args: &[String],
        known: Option<String>,
    ) -> (r: (Vec<RefChange>, Option<String>))
        ensures
            final(self).family == old(self).family,
            (final(self)@, views(r.0@), opt_view(r.1)) == stash_told(
                old(self)@,
                *logs,
                old(self).family.0@,
                opt_str(worktree),
                text_values(state.refs@),
                without_command(texts(args@), "stash"@),
                opt_view(known),
            ),
    {
        let start: usize = args_start(args, "stash");
        let ghost ts = without_command(texts(args@), "stash"@);
        let none: [&str; 0] = [];
        let mut changes: Vec<RefChange> = Vec::new();
        proof {
            assert(strs(none@) =~= seq![]);
            assert(views(changes@) =~= seq![]);
            assert(ts.len() == args@.len() - start);
            assert forall|k: int| 0 <= k < ts.len() implies ts[k] == args@[start + k]@ by {}
        }
        let count: usize = args.len() - start;
        let kind: &str = if count > 0 {
            args[start].as_str()
        } else {
            "push"
        };
        let first: Option<&str> = if count > 1 {
            Some(args[start + 1].as_str())
        } else {
            None
        };
        let second: Option<&str> = if count > 2 {
            Some(args[start + 2].as_str())
        } else {
            None
        };
        let is_branch = str_eq(kind, "branch");
        let is_apply = str_eq(kind, "apply");
        let is_pop = str_eq(kind, "pop");
        let is_drop = str_eq(kind, "drop");
        let mut target = known;
        if is_apply || is_pop || is_drop || is_branch {
            let name: Option<&str> = if is_branch {
                second
            } else {
                first
            };
            proof {
                assert(opt_str(name) == stash_name_of(ts));
            }
            let why = self.why_no_stash_target(&logs.files, name);
            if why.is_some() {
                self.fail(why);
                return (changes, target);
            }
            target = self.resolve_stash_target_at_cursor(&logs.files, name);
        }
        if str_eq(kind, "push") || str_eq(kind, "save") {
            let any = ExpectedTransition::any();
            self.look_at(&logs.files, "refs/stash");
            if let Some(entry) = self.find_common_ref_entry(
                &logs.files,
                "refs/stash",
                &any,
                &none,
            ) {
                self.consume_entry(&entry);
                self.push_stash(entry.new.as_str());
                let change = entry_to_ref_change(&entry);
                proof {
                    assert(views(changes@.push(change)) =~= seq![change@]);
                }
                changes.push(change);
            }
        } else if is_pop || is_drop {
            let (taken, oid) = self.consume_destructive_stash_operation(
                &logs.files,
                first,
                target,
            );
            changes = taken;
            target = oid;
        }
        if is_branch || ((is_apply || is_pop) && !state.refs.contains_key("HEAD")) {
            let expected = if is_branch {
                ExpectedTransition::from_state_and_working_logs(
                    worktree.is_some(),
                    state,
                    logs.working_logs.as_slice(),
                )
            } else {
                ExpectedTransition::any()
            };
            self.look_at_head(logs, worktree);
            if let Some(head) = self.find_head_entry(logs, worktree, &none, &expected) {
                let back: [&str; 2] = ["reset:", "checkout:"];
                proof {
                    assert(strs(back@) =~= seq!["reset:"@, "checkout:"@]);
                }
                if message_matches(head.message.as_str(), &back) {
                    self.consume_entry(&head);
                    let change = entry_to_ref_change(&head);
                    proof {
                        lemma_views_push(changes@, change);
                    }
                    changes.push(change);
                }
            }
        }
        (changes, target)
    }
}

// --------------------------------------------------------------------- commands

/// Whether a command is told from reflogs.
pub open spec fn uses_reflogs(primary: Seq<char>) -> bool {
    ||| primary == "commit"@
    ||| primary == "revert"@
    ||| primary == "reset"@
    ||| primary == "checkout"@
    ||| primary == "switch"@
    ||| primary == "merge"@
    ||| primary == "cherry-pick"@
    ||| primary == "rebase"@
    ||| primary == "pull"@
    ||| primary == "branch"@
    ||| primary == "stash"@
    ||| primary == "update-ref"@
}

/// Whether a command may move refs though it fails.
pub open spec fn moves_refs_on_failure(primary: Seq<char>) -> bool {
    ||| primary == "checkout"@
    ||| primary == "switch"@
    ||| primary == "stash"@
    ||| primary == "rebase"@
    ||| primary == "pull"@
    ||| primary == "branch"@
}

fn command_uses_ref_cursor(primary: &str) -> (r: bool)
    ensures
        r == uses_reflogs(primary@),
{
    str_eq(primary, "commit") || str_eq(primary, "revert") || str_eq(primary, "reset") || str_eq(
        primary,
        "checkout",
    ) || str_eq(primary, "switch") || str_eq(primary, "merge") || str_eq(primary, "cherry-pick")
        || str_eq(primary, "rebase") || str_eq(primary, "pull") || str_eq(primary, "branch")
        || str_eq(primary, "stash") || str_eq(primary, "update-ref")
}

fn command_can_move_refs_on_nonzero(primary: &str) -> (r: bool)
    ensures
        r == moves_refs_on_failure(primary@),
{
    str_eq(primary, "checkout") || str_eq(primary, "switch") || str_eq(primary, "stash") || str_eq(
        primary,
        "rebase",
    ) || str_eq(primary, "pull") || str_eq(primary, "branch")
}

/// Whether a checkout is one of paths.
pub open spec fn checks_out_paths(args: Seq<Seq<char>>) -> bool {
    exists|i: int|
        0 <= i < args.len() && {
            ||| #[trigger] args[i] == "--"@
            ||| has_prefix(args[i], "--pathspec"@)
            ||| args[i] == "--ours"@
            ||| args[i] == "--theirs"@
        }
}

fn checkout_is_path_checkout(args: &[String]) -> (r: bool)
    ensures
        r == checks_out_paths(texts(args@)),
{
    let ghost ts = texts(args@);
    let mut i: usize = 0;
    while i < args.len()
        invariant
            i <= args@.len(),
            ts == texts(args@),
            forall|k: int|
                0 <= k < i ==> !(#[trigger] ts[k] == "--"@ || has_prefix(ts[k], "--pathspec"@)
                    || ts[k] == "--ours"@ || ts[k] == "--theirs"@),
        decreases args.len() - i,
    {
        let a: &str = args[i].as_str();
        proof {
            assert(ts[i as int] == a@);
        }
        if str_eq(a, "--") || starts_with(a, "--pathspec") || str_eq(a, "--ours") || str_eq(
            a,
            "--theirs",
        ) {
            return true;
        }
        i += 1;
    }
    false
}

/// Whether a cherry-pick makes no commit.
pub open spec fn picks_without_commit(args: Seq<Seq<char>>) -> bool {
    args.contains("--no-commit"@) || args.contains("-n"@)
}

/// The cursor, the changes and the stash after a command that is told from
/// reflogs. Arguments that are wrong are a failure.
pub open spec fn command_told(
    c: CursorView,
    logs: RefLogs,
    dir: Seq<char>,
    primary: Seq<char>,
    args: Seq<Seq<char>>,
    worktree: Option<Seq<char>>,
    refs: Map<Seq<char>, Seq<char>>,
    stash: Option<Seq<char>>,
) -> (CursorView, Seq<RefChangeView>, Option<Seq<char>>) {
    let h = looked_at_head(c, logs, worktree);
    let x = expected_from(refs, worktree is Some, texts(logs.working_logs@));
    if primary == "update-ref"@ {
        match update_ref_of(args) {
            Ok(u) => {
                let (c1, changes) = update_ref_told(c, logs, dir, worktree, u);
                (c1, changes, stash)
            },
            Err(e) => (failed(c, Some(e)), seq![], stash),
        }
    } else if primary == "stash"@ {
        stash_told(c, logs, dir, worktree, refs, without_command(args, "stash"@), stash)
    } else {
        let (c1, changes) = if primary == "branch"@ {
            branch_told(c, logs.files, dir, refs, branch_command_of(args))
        } else if primary == "rebase"@ {
            rebase_told(
                h,
                logs,
                dir,
                head_span(
                    h,
                    logs,
                    worktree,
                    seq!["rebase"@, "checkout:"@],
                    seq!["rebase"@],
                    x,
                ),
            )
        } else if (primary == "checkout"@ && checks_out_paths(args)) || (primary == "cherry-pick"@
            && picks_without_commit(args)) {
            (c, seq![])
        } else if primary == "cherry-pick"@ || primary == "pull"@ {
            let prefixes = span_prefixes(primary);
            span_told(h, logs, dir, head_span(h, logs, worktree, prefixes, prefixes, x))
        } else {
            let amend = args.contains("--amend"@);
            let x1 = if primary == "commit"@ {
                ExpectedView {
                    messages: reflog_messages_of(commit_subject_of(args), amend),
                    ..x
                }
            } else {
                x
            };
            span_told(
                h,
                logs,
                dir,
                head_step(h, logs, worktree, step_prefixes(primary, amend), x1),
            )
        };
        (c1, changes, stash)
    }
}

/// How the reflog messages of a command that moves `HEAD` step by step begin.
pub open spec fn span_prefixes(primary: Seq<char>) -> Seq<Seq<char>> {
    if primary == "pull"@ {
        seq!["pull"@, "merge"@, "rebase"@, "checkout:"@, "commit:"@]
    } else {
        seq!["cherry-pick:"@, "commit:"@, "commit (cherry-pick):"@]
    }
}

/// How the reflog message of a command that moves `HEAD` once begins.
pub open spec fn step_prefixes(primary: Seq<char>, amend: bool) -> Seq<Seq<char>> {
    if primary == "commit"@ {
        if amend {
            seq!["commit (amend):"@, "commit:"@]
        } else {
            seq!["commit"@, "commit (initial):"@]
        }
    } else if primary == "switch"@ {
        seq!["checkout:"@, "switch:"@]
    } else if primary == "revert"@ {
        seq!["revert:"@]
    } else if primary == "reset"@ {
        seq!["reset:"@]
    } else if primary == "checkout"@ {
        seq!["checkout:"@]
    } else {
        seq!["merge"@]
    }
}

/// Whether two commands agree on all but the ref changes, the stash and the
/// confidence.
pub open spec fn same_command(a: NormalizedCommand, b: NormalizedCommand) -> bool {
    &&& a.scope == b.scope
    &&& a.family_key == b.family_key
    &&& a.worktree == b.worktree
    &&& a.root_sid == b.root_sid
    &&& a.raw_argv == b.raw_argv
    &&& a.primary_command == b.primary_command
    &&& a.invoked_command == b.invoked_command
    &&& a.invoked_args == b.invoked_args
    &&& a.observed_child_commands == b.observed_child_commands
    &&& a.exit_code == b.exit_code
    &&& a.started_at_ns == b.started_at_ns
    &&& a.finished_at_ns == b.finished_at_ns
}

/// Whether a command is one that reflogs tell about.
pub open spec fn is_told(cmd: NormalizedCommand) -> bool {
    cmd.primary_command matches Some(primary) && uses_reflogs(primary@) && (cmd.exit_code == 0
        || moves_refs_on_failure(primary@))
}

/// What telling a command gives: the cursor, with what went wrong, the changes and the
/// stash.
pub open spec fn told_of(
    cursor: RefCursor,
    cmd: NormalizedCommand,
    args: Seq<Seq<char>>,
    refs: Map<Seq<char>, Seq<char>>,
    logs: RefLogs,
) -> (CursorView, Seq<RefChangeView>, Option<Seq<char>>) {
    if is_told(cmd) {
        command_told(
            recovered(cursor@),
            logs,
            cursor.family.0@,
            cmd.primary_command->0@,
            args,
            opt_view(cmd.worktree),
            refs,
            opt_view(cmd.stash_target_oid),
        )
    } else {
        (recovered(cursor@), seq![], opt_view(cmd.stash_target_oid))
    }
}

impl RefCursor {
    fn tell_command(
        &mut self,
        primary: &str,
        worktree: Option<&str>,
        stash: Option<String>,
        args: &[String],
        state: &FamilyState,
        logs: &RefLogs,
    ) -> (r: (Vec<RefChange>, Option<String>))
        requires
            uses_reflogs(primary@),
        ensures
            final(self).family == old(self).family,
            (final(self)@, views(r.0@), opt_view(r.1)) == command_told(
                old(self)@,
                *logs,
                old(self).family.0@,
                primary@,
                texts(args@),
                opt_str(worktree),
                text_values(state.refs@),
                opt_view(stash),
            ),
    {
        if str_eq(primary, "update-ref") {
            return match self.enrich_update_ref(logs, worktree, args) {
                Ok(changes) => (changes, stash),
                Err(e) => {
                    let none: Vec<RefChange> = Vec::new();
                    proof {
                        assert(views(none@) =~= seq![]);
                    }
                    self.fail(Some(e.message().clone()));
                    (none, stash)
                },
            };
        }
        if str_eq(primary, "stash") {
            return self.enrich_stash(logs, worktree, state, args, stash);
        }
        if str_eq(primary, "branch") {
            return (self.enrich_branch(&logs.files, state, args), stash);
        }
        let expected = ExpectedTransition::from_state_and_working_logs(
            worktree.is_some(),
            state,
            logs.working_logs.as_slice(),
        );
        if str_eq(primary, "rebase") {
            return (self.consume_rebase_transition(logs, worktree, &expected), stash);
        }
        if (str_eq(primary, "checkout") && checkout_is_path_checkout(args)) || (str_eq(
            primary,
            "cherry-pick",
        ) && (list_contains(args, "--no-commit") || list_contains(args, "-n"))) {
            let none: Vec<RefChange> = Vec::new();
            proof {
                assert(views(none@) =~= seq![]);
            }
            return (none, stash);
        }
        if str_eq(primary, "pull") {
            let prefixes: [&str; 5] = ["pull", "merge", "rebase", "checkout:", "commit:"];
            proof {
                assert(strs(prefixes@) =~= span_prefixes(primary@));
            }
            let changes = self.consume_head_span_for_command(logs, worktree, &prefixes, &expected);
            return (changes, stash);
        }
        if str_eq(primary, "cherry-pick") {
            let prefixes: [&str; 3] = ["cherry-pick:", "commit:", "commit (cherry-pick):"];
            proof {
                assert(strs(prefixes@) =~= span_prefixes(primary@));
            }
            let changes = self.consume_head_span_for_command(logs, worktree, &prefixes, &expected);
            return (changes, stash);
        }
        let amend = list_contains(args, "--amend");
        let changes = if str_eq(primary, "commit") {
            let messages = commit_reflog_messages(args, amend);
            let wanted = expected.with_reflog_messages(messages);
            if amend {
                let prefixes: [&str; 2] = ["commit (amend):", "commit:"];
                proof {
                    assert(strs(prefixes@) =~= step_prefixes(primary@, amend));
                }
                self.consume_head_transition_for_command(logs, worktree, &prefixes, &wanted)
            } else {
                let prefixes: [&str; 2] = ["commit", "commit (initial):"];
                proof {
                    assert(strs(prefixes@) =~= step_prefixes(primary@, amend));
                }
                self.consume_head_transition_for_command(logs, worktree, &prefixes, &wanted)
            }
        } else if str_eq(primary, "switch") {
            let prefixes: [&str; 2] = ["checkout:", "switch:"];
            proof {
                assert(strs(prefixes@) =~= step_prefixes(primary@, amend));
            }
            self.consume_head_transition_for_command(logs, worktree, &prefixes, &expected)
        } else {
            let prefix: &str = if str_eq(primary, "revert") {
                "revert:"
            } else if str_eq(primary, "reset") {
                "reset:"
            } else if str_eq(primary, "checkout") {
                "checkout:"
            } else {
                "merge"
            };
            let prefixes: [&str; 1] = [prefix];
            proof {
                assert(strs(prefixes@) =~= seq![prefix@]);
                assert(strs(prefixes@) =~= step_prefixes(primary@, amend));
            }
            self.consume_head_transition_for_command(logs, worktree, &prefixes, &expected)
        };
        (changes, stash)
    }

    /// Tells what a command did to refs: fills in its ref changes, and, for a stash,
    /// the stash that it was about. Where there are changes, they are sure.
    pub fn enrich_command(
        &mut self,
        cmd: &mut NormalizedCommand,
        args: &[String],
        state: &FamilyState,
        logs: &RefLogs,
    ) -> (r: Result<(), GitAiError>)
        ensures
            final(self).family == old(self).family,
            same_command(*final(cmd), *old(cmd)),
            stack_is_sound(old(self)@) ==> stack_is_sound(final(self)@) && changes_are_sound(
                views(final(cmd).ref_changes@),
            ),
            ({
                let (cursor, changes, stash) = told_of(
                    *old(self),
                    *old(cmd),
                    texts(args@),
                    text_values(state.refs@),
                    *logs,
                );
                &&& final(self)@ == recovered(cursor)
                &&& views(final(cmd).ref_changes@) == changes
                &&& opt_view(final(cmd).stash_target_oid) == stash
                &&& match cursor.failure {
                    Some(e) => r matches Err(said) && said@ == e,
                    None => r is Ok,
                }
                &&& final(cmd).confidence == if cursor.failure is None && changes.len() > 0 {
                    Confidence::High
                } else {
                    old(cmd).confidence
                }
            }),
    {
        proof {
            if stack_is_sound(self@) {
                law_told_commands_are_sound(
                    *self,
                    *cmd,
                    texts(args@),
                    text_values(state.refs@),
                    *logs,
                );
            }
        }
        self.failure = None;
        cmd.ref_changes = Vec::new();
        proof {
            assert(views(cmd.ref_changes@) =~= seq![]);
        }
        let primary = match &cmd.primary_command {
            Some(primary) => primary.clone(),
            None => {
                return Ok(());
            },
        };
        if cmd.exit_code != 0 && !command_can_move_refs_on_nonzero(primary.as_str()) {
            return Ok(());
        }
        if !command_uses_ref_cursor(primary.as_str()) {
            return Ok(());
        }
        let known = match &cmd.stash_target_oid {
            Some(oid) => Some(oid.clone()),
            None => None,
        };
        let worktree: Option<&str> = match &cmd.worktree {
            Some(w) => Some(w.as_str()),
            None => None,
        };
        let (changes, target) = self.tell_command(
            primary.as_str(),
            worktree,
            known,
            args,
            state,
            logs,
        );
        let failure = self.failure.take();
        let sure = failure.is_none() && changes.len() > 0;
        cmd.ref_changes = changes;
        cmd.stash_target_oid = target;
        match failure {
            Some(cause) => Err(GitAiError::Generic(cause)),
            None => {
                if sure {
                    cmd.confidence = Confidence::High;
                }
                Ok(())
            },
        }
    }
}

// -------------------------------------------------------------------------- laws

proof fn lemma_moving_entries(
    records: Seq<RecordView>,
    key: Seq<char>,
    reference: Seq<char>,
    low: int,
    high: int,
)
    requires
        forall|i: int|
            0 <= i < records.len() ==> low < (#[trigger] records[i]).end_offset <= high,
        0 <= low,
        high <= u64::MAX,
    ensures
        forall|i: int|
            0 <= i < moving_entries(records, key, reference).len() ==> {
                let e = #[trigger] moving_entries(records, key, reference)[i];
                low < e.end_offset <= high && e.key == key && e.reference == reference
            },
    decreases records.len(),
{
    if records.len() > 0 {
        let front = records.drop_last();
        assert forall|i: int| 0 <= i < front.len() implies low < (
        #[trigger] front[i]).end_offset <= high by {
            assert(front[i] == records[i]);
        }
        lemma_moving_entries(front, key, reference, low, high);
        let before = moving_entries(front, key, reference);
        let all = moving_entries(records, key, reference);
        assert(records.last() == records[records.len() - 1]);
        assert forall|i: int| 0 <= i < all.len() implies {
            let e = #[trigger] all[i];
            low < e.end_offset <= high && e.key == key && e.reference == reference
        } by {
            if i < before.len() {
                assert(all[i] == before[i]);
            }
        }
    }
}

pub proof fn lemma_first_where_member<T>(s: Seq<T>, p: spec_fn(T) -> bool)
    ensures
        first_where(s, p) matches Some(x) ==> s.contains(x) && p(x),
    decreases s.len(),
{
    if s.len() > 0 && !p(s[0]) {
        lemma_first_where_member(s.drop_first(), p);
        if let Some(x) = first_where(s.drop_first(), p) {
            let k = s.drop_first().index_of(x);
            assert(s[k + 1] == x);
        }
    } else if s.len() > 0 {
        assert(s.contains(s[0]));
    }
}

proof fn lemma_found_behind_offset(
    bytes: Seq<u8>,
    key: Seq<char>,
    reference: Seq<char>,
    offset: Option<u64>,
    x: ExpectedView,
    prefixes: Seq<Seq<char>>,
)
    requires
        bytes.len() <= u64::MAX,
    ensures
        first_expected(entries_of(bytes, key, reference, offset), x, prefixes) matches Some(e) ==> {
            &&& start_of(bytes, offset) < e.end_offset <= bytes.len()
            &&& e.key == key
            &&& e.reference == reference
            &&& is_expected(x, e)
        },
{
    let start = start_of(bytes, offset);
    lemma_records_behind_offset(bytes, 0, start);
    lemma_moving_entries(records_of(bytes, offset), key, reference, start, bytes.len() as int);
    let p = |e: EntryView| is_expected(x, e) && message_ok(e.message, prefixes);
    let entries = entries_of(bytes, key, reference, offset);
    lemma_first_where_member(entries, p);
    if let Some(e) = first_expected(entries, x, prefixes) {
        let k = entries.index_of(e);
        assert(entries[k] == e);
    }
}

/// A record of a ref's reflog is told once: behind a record that was told, only
/// later records are found, whatever is looked for.
pub proof fn law_record_told_once(
    c: CursorView,
    files: FileTree,
    dir: Seq<char>,
    reference: Seq<char>,
    x: ExpectedView,
    prefixes: Seq<Seq<char>>,
    later_x: ExpectedView,
    later_prefixes: Seq<Seq<char>>,
)
    requires
        log_bytes_of(files, log_path_of(dir, reference)).len() <= u64::MAX,
    ensures
        find_common(c, files, dir, reference, x, prefixes) matches Some(e) ==> (find_common(
            consumed(c, e),
            files,
            dir,
            reference,
            later_x,
            later_prefixes,
        ) matches Some(later) ==> e.end_offset < later.end_offset),
{
    let bytes = log_bytes_of(files, log_path_of(dir, reference));
    let key = common_key_of(reference);
    lemma_found_behind_offset(bytes, key, reference, offset_at(c, key), x, prefixes);
    if let Some(e) = find_common(c, files, dir, reference, x, prefixes) {
        lemma_found_behind_offset(
            bytes,
            key,
            reference,
            offset_at(consumed(c, e), key),
            later_x,
            later_prefixes,
        );
    }
}

/// A record of the reflog of `HEAD` is told once.
pub proof fn law_head_record_told_once(
    c: CursorView,
    logs: RefLogs,
    worktree: Seq<char>,
    x: ExpectedView,
    prefixes: Seq<Seq<char>>,
    later_x: ExpectedView,
    later_prefixes: Seq<Seq<char>>,
)
    requires
        git_dir_of(logs.files, worktree) matches Some(dir) ==> log_bytes_of(
            logs.files,
            log_path_of(dir, "HEAD"@),
        ).len() <= u64::MAX,
    ensures
        find_head(c, logs, Some(worktree), prefixes, x) matches Some(e) ==> (find_head(
            consumed(c, e),
            logs,
            Some(worktree),
            later_prefixes,
            later_x,
        ) matches Some(later) ==> e.end_offset < later.end_offset),
{
    if let Some(dir) = git_dir_of(logs.files, worktree) {
        let bytes = log_bytes_of(logs.files, log_path_of(dir, "HEAD"@));
        let key = head_key_of(logs, dir);
        lemma_found_behind_offset(bytes, key, "HEAD"@, offset_at(c, key), x, prefixes);
        if let Some(e) = find_head(c, logs, Some(worktree), prefixes, x) {
            lemma_found_behind_offset(
                bytes,
                key,
                "HEAD"@,
                offset_at(consumed(c, e), key),
                later_x,
                later_prefixes,
            );
        }
    }
}

/// Whether every change is a move between two different objects.
pub open spec fn all_transitions(changes: Seq<RefChangeView>) -> bool {
    forall|i: int|
        0 <= i < changes.len() ==> is_transition(
            (#[trigger] changes[i]).old,
            changes[i].new,
        )
}

proof fn lemma_swept_transitions(
    c: CursorView,
    refs: Seq<Seq<char>>,
    files: FileTree,
    dir: Seq<char>,
    x: ExpectedView,
    prefixes: Seq<Seq<char>>,
)
    ensures
        all_transitions(swept(c, refs, files, dir, x, prefixes).1),
    decreases refs.len(),
{
    if refs.len() > 0 {
        lemma_swept_transitions(c, refs.drop_last(), files, dir, x, prefixes);
        let (c1, before) = swept(c, refs.drop_last(), files, dir, x, prefixes);
        let c2 = looked_at(c1, files, dir, refs.last());
        if let Some(e) = find_common(c2, files, dir, refs.last(), x, prefixes) {
            let key = common_key_of(refs.last());
            lemma_first_where_member(
                entries_of(
                    log_bytes_of(files, log_path_of(dir, refs.last())),
                    key,
                    refs.last(),
                    offset_at(c1, key),
                ),
                |e: EntryView| is_expected(x, e) && message_ok(e.message, prefixes),
            );
        }
    }
}

/// The changes of a run of moves of `HEAD` are moves between different objects,
/// where the run's own records are.
pub proof fn law_told_changes_are_transitions(
    c: CursorView,
    logs: RefLogs,
    dir: Seq<char>,
    span: Seq<EntryView>,
)
    requires
        forall|i: int|
            0 <= i < span.len() ==> is_transition((#[trigger] span[i]).old, span[i].new),
    ensures
        all_transitions(span_told(c, logs, dir, span).1),
        all_transitions(rebase_told(c, logs, dir, span).1),
{
    if span.len() > 0 {
        let old = span[0].old;
        let new = span.last().new;
        let refs = logged_refs(logs.files, dir);
        let between = between_transition(Some(old), Some(new));
        let c1 = listed(consumed_all(c, span), logs.files, dir);
        let (c2, others) = swept(c1, refs, logs.files, dir, between, seq![]);
        let again = listed(c2, logs.files, dir);
        lemma_swept_transitions(
            c1,
            refs,
            logs.files,
            dir,
            between,
            seq![],
        );
        let to_new = between_transition(None, Some(new));
        lemma_swept_transitions(again, refs, logs.files, dir, to_new, seq!["rebase"@]);
        let (c3, orig) = orig_head_moved(c2, logs.files, dir, old, new);
        let key = common_key_of("ORIG_HEAD"@);
        lemma_first_where_member(
            entries_of(
                log_bytes_of(logs.files, log_path_of(dir, "ORIG_HEAD"@)),
                key,
                "ORIG_HEAD"@,
                offset_at(c2, key),
            ),
            |e: EntryView| is_expected(any_transition(), e) && message_ok(e.message, seq![]),
        );
        let same_end = swept(again, refs, logs.files, dir, to_new, seq!["rebase"@]).1;
        let all = changes_of(span) + others + orig;
        let all2 = changes_of(span) + others + same_end;
        assert(all_transitions(all));
        assert(all_transitions(all2));
        lemma_distinct_transitions(all);
        lemma_distinct_transitions(all2);
    }
}

proof fn lemma_distinct_transitions(changes: Seq<RefChangeView>)
    requires
        all_transitions(changes),
    ensures
        all_transitions(distinct_changes(changes)),
{
    law_distinct_changes(changes);
    let d = distinct_changes(changes);
    assert forall|i: int| 0 <= i < d.len() implies is_transition(
        (#[trigger] d[i]).old,
        d[i].new,
    ) by {
        assert(d.contains(d[i]));
        let k = changes.index_of(d[i]);
        assert(changes.contains(d[i]));
        assert(changes[k] == d[i]);
    }
}

pub proof fn lemma_entries_reference(records: Seq<RecordView>, key: Seq<char>, reference: Seq<char>)
    ensures
        forall|i: int|
            0 <= i < moving_entries(records, key, reference).len() ==> (#[trigger] moving_entries(
                records,
                key,
                reference,
            )[i]).reference == reference,
    decreases records.len(),
{
    if records.len() > 0 {
        lemma_entries_reference(records.drop_last(), key, reference);
        let before = moving_entries(records.drop_last(), key, reference);
        let all = moving_entries(records, key, reference);
        assert forall|i: int| 0 <= i < all.len() implies (#[trigger] all[i]).reference
            == reference by {
            if i < before.len() {
                assert(all[i] == before[i]);
            }
        }
    }
}

pub proof fn lemma_first_expected_moves(
    bytes: Seq<u8>,
    key: Seq<char>,
    reference: Seq<char>,
    offset: Option<u64>,
    x: ExpectedView,
    prefixes: Seq<Seq<char>>,
)
    ensures
        first_expected(entries_of(bytes, key, reference, offset), x, prefixes) matches Some(e)
            ==> is_transition(e.old, e.new) && e.reference == reference,
{
    let entries = entries_of(bytes, key, reference, offset);
    lemma_entries_reference(records_of(bytes, offset), key, reference);
    lemma_first_where_member(
        entries,
        |e: EntryView| is_expected(x, e) && message_ok(e.message, prefixes),
    );
    if let Some(e) = first_expected(entries, x, prefixes) {
        assert(entries[entries.index_of(e)] == e);
    }
}

pub proof fn lemma_found_common_moves(
    c: CursorView,
    files: FileTree,
    dir: Seq<char>,
    reference: Seq<char>,
    x: ExpectedView,
    prefixes: Seq<Seq<char>>,
)
    ensures
        find_common(c, files, dir, reference, x, prefixes) matches Some(e) ==> is_transition(
            e.old,
            e.new,
        ) && e.reference == reference,
{
    let key = common_key_of(reference);
    lemma_first_expected_moves(
        log_bytes_of(files, log_path_of(dir, reference)),
        key,
        reference,
        offset_at(c, key),
        x,
        prefixes,
    );
}

pub proof fn lemma_found_head_moves(
    c: CursorView,
    logs: RefLogs,
    worktree: Option<Seq<char>>,
    prefixes: Seq<Seq<char>>,
    x: ExpectedView,
)
    ensures
        find_head(c, logs, worktree, prefixes, x) matches Some(e) ==> is_transition(e.old, e.new)
            && e.reference == "HEAD"@,
{
    if worktree is Some {
        if let Some(git_dir) = git_dir_of(logs.files, worktree->0) {
            let key = head_key_of(logs, git_dir);
            lemma_first_expected_moves(
                log_bytes_of(logs.files, log_path_of(git_dir, "HEAD"@)),
                key,
                "HEAD"@,
                offset_at(c, key),
                x,
                prefixes,
            );
        }
    }
}

/// Whether every record moved its ref from one object to another.
pub open spec fn all_moves(entries: Seq<EntryView>) -> bool {
    forall|i: int|
        0 <= i < entries.len() ==> is_transition((#[trigger] entries[i]).old, entries[i].new)
}

proof fn lemma_expected_among_moves(
    entries: Seq<EntryView>,
    x: ExpectedView,
    prefixes: Seq<Seq<char>>,
)
    ensures
        all_moves(expected_among(entries, x, prefixes)),
    decreases entries.len(),
{
    if entries.len() > 0 {
        lemma_expected_among_moves(entries.drop_last(), x, prefixes);
    }
}

proof fn lemma_head_runs_move(
    c: CursorView,
    logs: RefLogs,
    worktree: Option<Seq<char>>,
    prefixes: Seq<Seq<char>>,
    rest_prefixes: Seq<Seq<char>>,
    x: ExpectedView,
)
    ensures
        all_moves(head_span(c, logs, worktree, prefixes, rest_prefixes, x)),
        all_moves(head_step(c, logs, worktree, prefixes, x)),
{
    lemma_found_head_moves(c, logs, worktree, prefixes, x);
    if let Some(first) = find_head(c, logs, worktree, prefixes, x) {
        lemma_expected_among_moves(
            head_entries(logs, git_dir_of(logs.files, worktree->0)->0, Some(first.end_offset)),
            any_transition(),
            rest_prefixes,
        );
    }
}

/// Whether the stack of a cursor holds objects only, none of them twice.
pub open spec fn stack_is_sound(c: CursorView) -> bool {
    &&& c.stash.no_duplicates()
    &&& forall|i: int| 0 <= i < c.stash.len() ==> is_real_oid(#[trigger] c.stash[i])
}

/// What holds of the changes of a command: each is a move of a ref between two different
/// objects, and none occurs twice.
pub open spec fn changes_are_sound(changes: Seq<RefChangeView>) -> bool {
    all_transitions(changes) && changes.no_duplicates()
}

proof fn lemma_zero_is_no_object(oid: Seq<char>)
    requires
        is_real_oid(oid),
    ensures
        is_transition(oid, zero_oid_of()),
        is_transition(zero_oid_of(), oid),
{
    reveal_strlit("0000000000000000000000000000000000000000");
    assert(zero_oid_of().len() == 40);
    assert(all_zeros(zero_oid_of()));
    assert forall|i: int| 0 <= i < zero_oid_of().len() implies is_hex(
        #[trigger] zero_oid_of()[i],
    ) by {
        assert(zero_oid_of()[i] == '0');
    }
}

proof fn lemma_swept_stash(
    c: CursorView,
    refs: Seq<Seq<char>>,
    files: FileTree,
    dir: Seq<char>,
    x: ExpectedView,
    prefixes: Seq<Seq<char>>,
)
    ensures
        swept(c, refs, files, dir, x, prefixes).0.stash == c.stash,
    decreases refs.len(),
{
    if refs.len() > 0 {
        lemma_swept_stash(c, refs.drop_last(), files, dir, x, prefixes);
    }
}

proof fn lemma_consumed_stash(c: CursorView, entries: Seq<EntryView>)
    ensures
        consumed_all(c, entries).stash == c.stash,
    decreases entries.len(),
{
    if entries.len() > 0 {
        lemma_consumed_stash(c, entries.drop_last());
    }
}

proof fn lemma_span_sound(c: CursorView, logs: RefLogs, dir: Seq<char>, span: Seq<EntryView>)
    requires
        all_moves(span),
    ensures
        changes_are_sound(span_told(c, logs, dir, span).1),
        changes_are_sound(rebase_told(c, logs, dir, span).1),
        span_told(c, logs, dir, span).0.stash == c.stash,
        rebase_told(c, logs, dir, span).0.stash == c.stash,
{
    law_told_changes_are_transitions(c, logs, dir, span);
    if span.len() > 0 {
        let old = span[0].old;
        let new = span.last().new;
        let refs = logged_refs(logs.files, dir);
        let between = between_transition(Some(old), Some(new));
        let to_new = between_transition(None, Some(new));
        let c1 = listed(consumed_all(c, span), logs.files, dir);
        let (c2, others) = swept(c1, refs, logs.files, dir, between, seq![]);
        let again = listed(c2, logs.files, dir);
        let (c3, orig) = orig_head_moved(c2, logs.files, dir, old, new);
        let same_end = swept(again, refs, logs.files, dir, to_new, seq!["rebase"@]).1;
        lemma_consumed_stash(c, span);
        lemma_swept_stash(c1, refs, logs.files, dir, between, seq![]);
        lemma_swept_stash(again, refs, logs.files, dir, to_new, seq!["rebase"@]);
        law_distinct_changes(changes_of(span) + others + orig);
        law_distinct_changes(changes_of(span) + others + same_end);
    }
}

proof fn lemma_deletions_move(c: CursorView, refs: Map<Seq<char>, Seq<char>>, names: Seq<Seq<char>>)
    ensures
        all_transitions(deletions_told(c, refs, names).1),
        deletions_told(c, refs, names).0.stash == c.stash,
    decreases names.len(),
{
    if names.len() > 0 {
        lemma_deletions_move(c, refs, names.drop_last());
        if let Some(oid) = real_ref(refs, names.last()) {
            lemma_zero_is_no_object(oid);
        }
    }
}

proof fn lemma_relocation_moves(
    c: CursorView,
    files: FileTree,
    dir: Seq<char>,
    refs: Map<Seq<char>, Seq<char>>,
    kind: BranchLifecycleKind,
    old_reference: Option<Seq<char>>,
    new_reference: Seq<char>,
)
    ensures
        all_transitions(
            relocation_told(c, files, dir, refs, kind, old_reference, new_reference).1,
        ),
        relocation_told(c, files, dir, refs, kind, old_reference, new_reference).0.stash == c.stash,
{
    let lifecycle = lifecycle_of(files, dir, kind, new_reference);
    let source = if old_reference is Some {
        old_reference
    } else {
        match lifecycle {
            Some((old, _)) => Some(old),
            None => None,
        }
    };
    let source_oid = if source is Some && refs.dom().contains(source->0) {
        Some(refs[source->0])
    } else {
        match lifecycle {
            Some((_, oid)) => Some(oid),
            None => None,
        }
    };
    if source_oid is Some && is_real_oid(source_oid->0) {
        lemma_zero_is_no_object(source_oid->0);
    }
}

proof fn lemma_branch_sound(
    c: CursorView,
    files: FileTree,
    dir: Seq<char>,
    refs: Map<Seq<char>, Seq<char>>,
    command: BranchCommandView,
)
    ensures
        changes_are_sound(branch_told(c, files, dir, refs, command).1),
        branch_told(c, files, dir, refs, command).0.stash == c.stash,
{
    let changes = match command {
        BranchCommandView::CreateOrReset(reference) => {
            let c0 = looked_at(c, files, dir, reference);
            let found = find_common(c0, files, dir, reference, any_transition(), seq!["branch:"@]);
            lemma_found_common_moves(
                c0,
                files,
                dir,
                reference,
                any_transition(),
                seq!["branch:"@],
            );
            match found {
                Some(e) => seq![change_of(e)],
                None => seq![],
            }
        },
        BranchCommandView::Delete(names) => {
            lemma_deletions_move(c, refs, names);
            deletions_told(c, refs, names).1
        },
        BranchCommandView::Rename(old, new) => {
            lemma_relocation_moves(c, files, dir, refs, BranchLifecycleKind::Rename, old, new);
            relocation_told(c, files, dir, refs, BranchLifecycleKind::Rename, old, new).1
        },
        BranchCommandView::Copy(old, new) => {
            lemma_relocation_moves(c, files, dir, refs, BranchLifecycleKind::Copy, old, new);
            relocation_told(c, files, dir, refs, BranchLifecycleKind::Copy, old, new).1
        },
        BranchCommandView::Nothing => seq![],
    };
    assert(branch_told(c, files, dir, refs, command).1 == unless_failed(
        branch_told(c, files, dir, refs, command).0,
        changes,
    ));
    lemma_distinct_transitions(changes);
    law_distinct_changes(changes);
}

proof fn lemma_update_ref_sound(
    c: CursorView,
    logs: RefLogs,
    dir: Seq<char>,
    worktree: Option<Seq<char>>,
    u: UpdateRefView,
)
    ensures
        changes_are_sound(update_ref_told(c, logs, dir, worktree, u).1),
        update_ref_told(c, logs, dir, worktree, u).0.stash == c.stash,
{
    let x = between_transition(u.old_oid, Some(u.new_oid));
    let refs = logged_refs(logs.files, dir);
    let none = Seq::<Seq<char>>::empty();
    let h0 = looked_at_head(c, logs, worktree);
    let c0 = looked_at(c, logs.files, dir, u.reference);
    lemma_found_head_moves(h0, logs, worktree, none, x);
    lemma_found_common_moves(c0, logs.files, dir, u.reference, x, none);
    let changes = if u.reference == "HEAD"@ {
        match find_head(h0, logs, worktree, none, x) {
            Some(e) => {
                let same = between_transition(Some(e.old), Some(e.new));
                let c1 = listed(consumed(h0, e), logs.files, dir);
                let others = swept(c1, refs, logs.files, dir, same, none).1;
                lemma_swept_transitions(c1, refs, logs.files, dir, same, none);
                lemma_swept_stash(c1, refs, logs.files, dir, same, none);
                seq![change_of(e)] + others
            },
            None => seq![],
        }
    } else {
        match find_common(c0, logs.files, dir, u.reference, x, none) {
            Some(e) => {
                let c2 = looked_at_head(consumed(c0, e), logs, worktree);
                let same = between_transition(Some(e.old), Some(e.new));
                lemma_found_head_moves(c2, logs, worktree, none, same);
                match find_head(c2, logs, worktree, none, same) {
                    Some(h) => seq![change_of(e), change_of(h)],
                    None => seq![change_of(e)],
                }
            },
            None => seq![],
        }
    };
    assert(update_ref_told(c, logs, dir, worktree, u).1 == unless_failed(
        update_ref_told(c, logs, dir, worktree, u).0,
        changes,
    ));
    lemma_distinct_transitions(changes);
    law_distinct_changes(changes);
}

proof fn lemma_stack_kept(stack: Seq<Seq<char>>, oid: Seq<char>, position: Option<nat>)
    requires
        stack.no_duplicates(),
        forall|i: int| 0 <= i < stack.len() ==> is_real_oid(#[trigger] stack[i]),
    ensures
        forall|i: int|
            0 <= i < stash_pushed(stack, oid).len() ==> is_real_oid(
                #[trigger] stash_pushed(stack, oid)[i],
            ),
        forall|i: int|
            0 <= i < stash_removed(stack, position, oid).len() ==> is_real_oid(
                #[trigger] stash_removed(stack, position, oid)[i],
            ),
{
    lemma_first_position(stack, oid);
    let pushed = stash_pushed(stack, oid);
    assert forall|i: int| 0 <= i < pushed.len() implies is_real_oid(#[trigger] pushed[i]) by {
        if pushed.len() > stack.len() && i > 0 {
            assert(pushed[i] == stack[i - 1]);
        }
    }
    let left = stash_removed(stack, position, oid);
    assert forall|i: int| 0 <= i < left.len() implies is_real_oid(#[trigger] left[i]) by {
        if left.len() < stack.len() {
            assert(left[i] == stack[i] || left[i] == stack[i + 1]);
        }
    }
}

proof fn lemma_stash_taken_sound(
    c: CursorView,
    files: FileTree,
    dir: Seq<char>,
    name: Option<Seq<char>>,
    known: Option<Seq<char>>,
)
    requires
        stack_is_sound(c),
    ensures
        stack_is_sound(stash_taken(c, files, dir, name, known).0),
        changes_are_sound(stash_taken(c, files, dir, name, known).1),
        stash_taken(c, files, dir, name, known).1.len() <= 1,
        forall|i: int|
            0 <= i < stash_taken(c, files, dir, name, known).1.len() ==> (#[trigger] stash_taken(
                c,
                files,
                dir,
                name,
                known,
            ).1[i]).reference == "refs/stash"@,
{
    let target = if known is Some {
        known
    } else {
        stash_named(c, files, dir, name)
    };
    if let Some(oid) = target {
        let position = stash_position(name);
        let left = stash_removed(c.stash, position, oid);
        law_stash_stack_distinct(c.stash, oid, position);
        lemma_stack_kept(c.stash, oid, position);
        if c.stash.len() > 0 && c.stash[0] == oid {
            assert(is_real_oid(c.stash[0]));
            lemma_zero_is_no_object(oid);
            if left.len() > 0 {
                assert(left.contains(left[0]));
                assert(is_real_oid(left[0]));
            }
        }
    }
}

proof fn lemma_stash_sound(
    c: CursorView,
    logs: RefLogs,
    dir: Seq<char>,
    worktree: Option<Seq<char>>,
    refs: Map<Seq<char>, Seq<char>>,
    args: Seq<Seq<char>>,
    known: Option<Seq<char>>,
)
    requires
        stack_is_sound(c),
    ensures
        stack_is_sound(stash_told(c, logs, dir, worktree, refs, args, known).0),
        changes_are_sound(stash_told(c, logs, dir, worktree, refs, args, known).1),
{
    let kind = stash_kind_of(args);
    let is_branch = kind == "branch"@;
    let target = if names_stash(kind) {
        stash_named(c, logs.files, dir, stash_name_of(args))
    } else {
        known
    };
    let c0 = looked_at(c, logs.files, dir, "refs/stash"@);
    let none = Seq::<Seq<char>>::empty();
    lemma_found_common_moves(c0, logs.files, dir, "refs/stash"@, any_transition(), none);
    lemma_stash_taken_sound(c, logs.files, dir, nth_arg(args, 1), target);
    let (c1, changes) = if kind == "push"@ || kind == "save"@ {
        match find_common(c0, logs.files, dir, "refs/stash"@, any_transition(), none) {
            Some(e) => {
                law_stash_stack_distinct(c.stash, e.new, None);
                lemma_stack_kept(c.stash, e.new, None);
                (
                    CursorView { stash: stash_pushed(c.stash, e.new), ..consumed(c0, e) },
                    seq![change_of(e)],
                )
            },
            None => (c0, seq![]),
        }
    } else if kind == "pop"@ || kind == "drop"@ {
        let t = stash_taken(c, logs.files, dir, nth_arg(args, 1), target);
        (t.0, t.1)
    } else {
        (c, seq![])
    };
    assert(stack_is_sound(c1));
    assert(changes_are_sound(changes));
    let x = if is_branch {
        expected_from(refs, worktree is Some, texts(logs.working_logs@))
    } else {
        any_transition()
    };
    let c2 = looked_at_head(c1, logs, worktree);
    lemma_found_head_moves(c2, logs, worktree, none, x);
    reveal_strlit("HEAD");
    reveal_strlit("refs/stash");
    assert("HEAD"@.len() == 4 && "refs/stash"@.len() == 10);
    if let Some(h) = find_head(c2, logs, worktree, none, x) {
        let more = changes.push(change_of(h));
        assert forall|i: int| 0 <= i < changes.len() implies (#[trigger] changes[i]).reference
            == "refs/stash"@ by {}
        assert(changes_are_sound(more)) by {
            assert forall|i: int| 0 <= i < more.len() implies is_transition(
                (#[trigger] more[i]).old,
                more[i].new,
            ) by {
                if i < changes.len() {
                    assert(more[i] == changes[i]);
                }
            }
            assert forall|i: int, j: int|
                0 <= i < more.len() && 0 <= j < more.len() && i != j implies more[i] != more[j] by {
                if i < changes.len() {
                    assert(more[i] == changes[i]);
                }
                if j < changes.len() {
                    assert(more[j] == changes[j]);
                }
            }
        }
    }
}

/// Whatever a command did, the changes that are told of it are moves of refs between two
/// different objects, none of them twice; and the stack of stashes that a cursor keeps
/// holds objects only, none of them twice.
pub proof fn law_told_commands_are_sound(
    cursor: RefCursor,
    cmd: NormalizedCommand,
    args: Seq<Seq<char>>,
    refs: Map<Seq<char>, Seq<char>>,
    logs: RefLogs,
)
    requires
        stack_is_sound(cursor@),
    ensures
        stack_is_sound(told_of(cursor, cmd, args, refs, logs).0),
        changes_are_sound(told_of(cursor, cmd, args, refs, logs).1),
{
    if is_told(cmd) {
        let c = recovered(cursor@);
        let h = looked_at_head(c, logs, opt_view(cmd.worktree));
        let dir = cursor.family.0@;
        let primary = cmd.primary_command->0@;
        let worktree = opt_view(cmd.worktree);
        let x = expected_from(refs, worktree is Some, texts(logs.working_logs@));
        if primary == "update-ref"@ {
            if let Ok(u) = update_ref_of(args) {
                lemma_update_ref_sound(c, logs, dir, worktree, u);
            }
        } else if primary == "stash"@ {
            lemma_stash_sound(
                c,
                logs,
                dir,
                worktree,
                refs,
                without_command(args, "stash"@),
                opt_view(cmd.stash_target_oid),
            );
        } else if primary == "branch"@ {
            lemma_branch_sound(c, logs.files, dir, refs, branch_command_of(args));
        } else if primary == "rebase"@ {
            let prefixes = seq!["rebase"@, "checkout:"@];
            let rest = seq!["rebase"@];
            lemma_head_runs_move(h, logs, worktree, prefixes, rest, x);
            lemma_span_sound(h, logs, dir, head_span(h, logs, worktree, prefixes, rest, x));
        } else if primary == "cherry-pick"@ || primary == "pull"@ {
            let prefixes = span_prefixes(primary);
            lemma_head_runs_move(h, logs, worktree, prefixes, prefixes, x);
            lemma_span_sound(h, logs, dir, head_span(h, logs, worktree, prefixes, prefixes, x));
        } else {
            let amend = args.contains("--amend"@);
            let x1 = if primary == "commit"@ {
                ExpectedView {
                    messages: reflog_messages_of(commit_subject_of(args), amend),
                    ..x
                }
            } else {
                x
            };
            let prefixes = step_prefixes(primary, amend);
            lemma_head_runs_move(h, logs, worktree, prefixes, prefixes, x1);
            lemma_span_sound(h, logs, dir, head_step(h, logs, worktree, prefixes, x1));
        }
    }
}

/// Where something goes wrong, no changes are told, but for a stash that was taken before.
pub proof fn law_failed_commands_tell_nothing(
    cursor: RefCursor,
    cmd: NormalizedCommand,
    args: Seq<Seq<char>>,
    refs: Map<Seq<char>, Seq<char>>,
    logs: RefLogs,
)
    requires
        told_of(cursor, cmd, args, refs, logs).0.failure is Some,
        cmd.primary_command matches Some(primary) ==> primary@ != "stash"@,
    ensures
        told_of(cursor, cmd, args, refs, logs).1.len() == 0,
{
}

/// A branch whose reflog is there and cannot be read makes the command fail with the cause:
/// the cursor stays where it is.
pub proof fn law_unreadable_branch_fails(
    c: CursorView,
    files: FileTree,
    dir: Seq<char>,
    refs: Map<Seq<char>, Seq<char>>,
    reference: Seq<char>,
    old: Option<Seq<char>>,
    cause: Seq<char>,
)
    requires
        c.failure is None,
        files.failure_at(log_path_of(dir, reference)) == Some(cause),
    ensures
        branch_told(c, files, dir, refs, BranchCommandView::CreateOrReset(reference)) == (
            failed(c, Some(cause)),
            Seq::<RefChangeView>::empty(),
        ),
        branch_told(c, files, dir, refs, BranchCommandView::Rename(old, reference)) == (
            failed(c, Some(cause)),
            Seq::<RefChangeView>::empty(),
        ),
        branch_told(c, files, dir, refs, BranchCommandView::Copy(old, reference)) == (
            failed(c, Some(cause)),
            Seq::<RefChangeView>::empty(),
        ),
{
}

/// A command that reflogs do not tell about leaves the cursor as it is and gets no
/// changes.
pub proof fn law_untold_command(
    cursor: RefCursor,
    cmd: NormalizedCommand,
    args: Seq<Seq<char>>,
    refs: Map<Seq<char>, Seq<char>>,
    logs: RefLogs,
)
    requires
        !is_told(cmd),
    ensures
        told_of(cursor, cmd, args, refs, logs) == (
            recovered(cursor@),
            Seq::<RefChangeView>::empty(),
            opt_view(cmd.stash_target_oid),
        ),
{
}

/// Taking the newest stash off undoes putting it on.
pub proof fn law_stash_push_then_take(stack: Seq<Seq<char>>, oid: Seq<char>)
    requires
        is_real_oid(oid),
        !stack.contains(oid),
    ensures
        stash_removed(stash_pushed(stack, oid), Some(0), oid) == stack,
{
    assert(stash_pushed(stack, oid).remove(0) =~= stack);
}

/// The refs that have a reflog come in order, each once.
pub proof fn law_logged_refs_sorted(files: FileTree, dir: Seq<char>)
    ensures
        strictly_sorted(logged_refs(files, dir)),
{
    lemma_logged_refs_sorted(
        files,
        files.nodes.key_order() + files.causes.key_order(),
        joined(dir, "logs"@),
    );
}

proof fn lemma_logged_refs_sorted(files: FileTree, paths: Seq<Seq<char>>, logs_dir: Seq<char>)
    ensures
        strictly_sorted(logged_refs_among(files, paths, logs_dir)),
    decreases paths.len(),
{
    if paths.len() > 0 {
        lemma_logged_refs_sorted(files, paths.drop_last(), logs_dir);
        if let Some(name) = logged_ref_of(paths.last(), logs_dir) {
            lemma_with_sorted(logged_refs_among(files, paths.drop_last(), logs_dir), name);
        }
    }
}

} // verus!
