//! The state of a connected session: remote paths, listings and transfers.
use vstd::prelude::*;

use crate::error::ClientError;
use crate::listing::{LocalEntry, RemoteEntry};
use crate::text::str_concat;
use crate::transfer::{ProgressReporter, StatusHandle, TransferDirection, TransferJob, TransferStatus};

verus! {

// ---------------------------------------------------------------------------
// Remote paths
// ---------------------------------------------------------------------------

/// The remote path of `name` inside the directory `cwd`.
pub open spec fn join_remote_spec(cwd: Seq<char>, name: Seq<char>) -> Seq<char> {
    if cwd == seq!['/'] {
        seq!['/'] + name
    } else {
        cwd + seq!['/'] + name
    }
}

/// The index of the last `/` in `s`, if there is one.
pub open spec fn last_slash(s: Seq<char>) -> Option<int>
    decreases s.len(),
{
    if s.len() == 0 {
        None
    } else if s.last() == '/' {
        Some(s.len() - 1)
    } else {
        last_slash(s.drop_last())
    }
}

/// The parent directory of the remote path `cwd`: everything before its last
/// `/`, or `/` itself when that slash is the first character; `None` when
/// `cwd` holds no `/`.
pub open spec fn parent_remote_spec(cwd: Seq<char>) -> Option<Seq<char>> {
    match last_slash(cwd) {
        None => None,
        Some(i) => if i == 0 {
            Some(seq!['/'])
        } else {
            Some(cwd.take(i))
        },
    }
}

proof fn lemma_last_slash_of(s: Seq<char>, i: int)
    requires
        0 <= i < s.len(),
        s[i] == '/',
        forall|k: int| i < k < s.len() ==> s[k] != '/',
    ensures
        last_slash(s) == Some(i),
    decreases s.len(),
{
    if s.last() != '/' {
        lemma_last_slash_of(s.drop_last(), i);
    }
}

proof fn lemma_no_slash(s: Seq<char>)
    requires
        forall|k: int| 0 <= k < s.len() ==> s[k] != '/',
    ensures
        last_slash(s) is None,
    decreases s.len(),
{
    if s.len() > 0 {
        lemma_no_slash(s.drop_last());
    }
}

/// Joins a remote directory and an entry name with `/`.
pub fn join_remote(cwd: &str, name: &str) -> (r: String)
    ensures
        r@ == join_remote_spec(cwd@, name@),
{
    let cs = crate::text::chars_of(cwd);
    if cs.len() == 1 && cs[0] == '/' {
        proof {
            assert(cwd@ =~= seq!['/']);
            reveal_strlit("/");
        }
        str_concat("/", name)
    } else {
        proof {
            if cwd@ == seq!['/'] {
                assert(cs@.len() == 1 && cs@[0] == '/');
            }
        }
        proof {
            reveal_strlit("/");
        }
        let with_slash = str_concat(cwd, "/");
        str_concat(with_slash.as_str(), name)
    }
}

/// The parent of a remote directory, or `NoParent` when it has no `/`.
pub fn parent_remote(cwd: &str) -> (r: Result<String, ClientError>)
    ensures
        match parent_remote_spec(cwd@) {
            Some(p) => r matches Ok(s) && s@ == p,
            None => r matches Err(ClientError::NoParent(s)) && s@ == cwd@,
        },
{
    let cs = crate::text::chars_of(cwd);
    let mut i: usize = cs.len();
    while i > 0
        invariant
            i <= cs.len(),
            cs@ == cwd@,
            forall|k: int| i <= k < cs.len() ==> cs@[k] != '/',
        decreases i,
    {
        if cs[i - 1] == '/' {
            let idx: usize = i - 1;
            proof {
                lemma_last_slash_of(cwd@, idx as int);
            }
            if idx == 0 {
                proof {
                    reveal_strlit("/");
                }
                return Ok(String::from_str("/"));
            } else {
                let prefix = cwd.substring_char(0, idx);
                return Ok(String::from_str(prefix));
            }
        }
        i = i - 1;
    }
    proof {
        lemma_no_slash(cwd@);
    }
    Err(ClientError::NoParent(String::from_str(cwd)))
}

/// Going into a child directory and back up returns to where one started:
/// the parent of `join_remote(cwd, name)` is `cwd`, for any non-empty `cwd`
/// and any entry name without `/`.
pub proof fn law_parent_of_join(cwd: Seq<char>, name: Seq<char>)
    requires
        cwd.len() > 0,
        forall|k: int| 0 <= k < name.len() ==> name[k] != '/',
    ensures
        parent_remote_spec(join_remote_spec(cwd, name)) == Some(cwd),
{
    let joined = join_remote_spec(cwd, name);
    if cwd == seq!['/'] {
        assert(joined[0] == '/');
        assert forall|k: int| 0 < k < joined.len() implies joined[k] != '/' by {
            assert(joined[k] == name[k - 1]);
        }
        lemma_last_slash_of(joined, 0);
    } else {
        let i = cwd.len() as int;
        assert(joined[i] == '/');
        assert forall|k: int| i < k < joined.len() implies joined[k] != '/' by {
            assert(joined[k] == name[k - i - 1]);
        }
        lemma_last_slash_of(joined, i);
        assert(joined.take(i) =~= cwd);
        if i == 0 {
        }
    }
}

// ---------------------------------------------------------------------------
// Local paths
// ---------------------------------------------------------------------------

/// The local path of `name` inside the directory `base`, for local paths
/// held as `/`-separated text and joined as `Path::join` does on Unix: a
/// name that starts with `/` is itself the path; otherwise a `/` goes
/// between the two, unless `base` is empty or already ends in `/`.
pub open spec fn join_local_spec(base: Seq<char>, name: Seq<char>) -> Seq<char> {
    if name.len() > 0 && name[0] == '/' {
        name
    } else if base.len() == 0 || base.last() == '/' {
        base + name
    } else {
        base + seq!['/'] + name
    }
}

/// Joins a local directory and an entry name.
pub fn join_local(base: &str, name: &str) -> (r: String)
    ensures
        r@ == join_local_spec(base@, name@),
{
    let ns = crate::text::chars_of(name);
    if ns.len() > 0 && ns[0] == '/' {
        return String::from_str(name);
    }
    let bs = crate::text::chars_of(base);
    if bs.len() == 0 || bs[bs.len() - 1] == '/' {
        str_concat(base, name)
    } else {
        proof {
            reveal_strlit("/");
        }
        let with_slash = str_concat(base, "/");
        str_concat(with_slash.as_str(), name)
    }
}

/// `q` is `p` with something taken off its end.
pub open spec fn proper_prefix(q: Seq<char>, p: Seq<char>) -> bool {
    q.len() < p.len() && q == p.take(q.len() as int)
}

/// The directory part of a path: everything before its last `/`.
pub open spec fn dir_part(p: Seq<char>) -> Seq<char> {
    match last_slash(p) {
        Some(i) => p.take(i),
        None => Seq::empty(),
    }
}

/// The name part of a path: everything after its last `/`.
pub open spec fn name_part(p: Seq<char>) -> Seq<char> {
    match last_slash(p) {
        Some(i) => p.skip(i + 1),
        None => p,
    }
}

/// A character that no platform reads as a path separator or prefix mark:
/// neither a backslash (code 92) nor `:`.
pub open spec fn ordinary_char(c: char) -> bool {
    (c as u32) != 92 && c != ':'
}

/// A path `q/name` whose final component can only be `name`, with `q` left
/// when it is taken off: `q` is not empty, does not end in `/` and its own
/// last part is not `.` (a trailing separator or `.` part would be
/// normalized away), `name` is neither empty nor `.`, and the path holds no
/// backslash or `:` (which some platforms read as separators or prefixes).
pub open spec fn plain_child(p: Seq<char>) -> bool {
    let q = dir_part(p);
    let name = name_part(p);
    &&& last_slash(p) is Some
    &&& q.len() > 0
    &&& q.last() != '/'
    &&& !(q.len() >= 2 && q[q.len() - 2] == '/' && q.last() == '.')
    &&& name.len() > 0
    &&& name != seq!['.']
    &&& forall|k: int| 0 <= k < p.len() ==> ordinary_char(p[k])
}

/// `Path::parent` on a local path held as text: the path without its final
/// component, or `None` when the path is empty or ends in the root. For a
/// plain child `q/name` that is `q` itself. For other paths, which prefix it
/// keeps (how it treats repeated separators and `.` components) depends on
/// the platform and is left unsaid here beyond its being a proper prefix.
#[verifier::external_body]
fn parent_local(path: &str) -> (r: Option<String>)
    ensures
        path@.len() == 0 ==> r is None,
        path@ == seq!['/'] ==> r is None,
        r matches Some(q) ==> proper_prefix(q@, path@),
        plain_child(path@) ==> r is Some,
        r matches Some(q) ==> (plain_child(path@) ==> q@ == dir_part(path@)),
{
    match std::path::Path::new(path).parent() {
        Some(q) => Some(q.to_string_lossy().into_owned()),
        None => None,
    }
}

// ---------------------------------------------------------------------------
// Session state
// ---------------------------------------------------------------------------

/// The state of a connected session, without the connection itself: where
/// each side is, what it lists, and the transfers queued so far. Local paths
/// are held as `/`-separated text.
pub struct SessionState {
    pub remote_cwd: String,
    pub remote_entries: Vec<RemoteEntry>,
    pub local_cwd: String,
    pub local_entries: Vec<LocalEntry>,
    /// Current transfer jobs.
    pub transfers: Vec<TransferJob>,
    /// The id the next queued transfer gets.
    pub next_transfer_id: u64,
}

/// A transfer just queued: what the worker that runs it needs.
pub struct QueuedTransfer {
    pub id: u64,
    pub direction: TransferDirection,
    pub local_path: String,
    pub remote_path: String,
    pub progress: ProgressReporter,
    pub status: StatusHandle,
}

/// `t` is `s` with the local side now at `cwd` listing `entries`, and
/// everything else as it was.
pub open spec fn local_moved(s: SessionState, t: SessionState, cwd: Seq<char>, entries: Vec<LocalEntry>) -> bool {
    &&& t.local_cwd@ == cwd
    &&& t.local_entries == entries
    &&& t.remote_cwd == s.remote_cwd
    &&& t.remote_entries == s.remote_entries
    &&& t.transfers == s.transfers
    &&& t.next_transfer_id == s.next_transfer_id
}

/// `t` is `s` with the remote side now at `cwd` listing `entries`, and
/// everything else as it was.
pub open spec fn remote_moved(s: SessionState, t: SessionState, cwd: Seq<char>, entries: Vec<RemoteEntry>) -> bool {
    &&& t.remote_cwd@ == cwd
    &&& t.remote_entries == entries
    &&& t.local_cwd == s.local_cwd
    &&& t.local_entries == s.local_entries
    &&& t.transfers == s.transfers
    &&& t.next_transfer_id == s.next_transfer_id
}

impl SessionState {
    /// Transfers are numbered 0, 1, 2, ... in the order they were queued,
    /// and the next one gets the next number.
    pub open spec fn wf(&self) -> bool {
        &&& self.next_transfer_id == self.transfers@.len()
        &&& forall|i: int| 0 <= i < self.transfers@.len() ==> #[trigger] self.transfers@[i].id == i
    }

    /// The state right after connecting.
    pub fn new(
        remote_cwd: String,
        remote_entries: Vec<RemoteEntry>,
        local_cwd: String,
        local_entries: Vec<LocalEntry>,
    ) -> (r: SessionState)
        ensures
            r.wf(),
            r.remote_cwd == remote_cwd,
            r.remote_entries == remote_entries,
            r.local_cwd == local_cwd,
            r.local_entries == local_entries,
            r.transfers@.len() == 0,
    {
        SessionState {
            remote_cwd,
            remote_entries,
            local_cwd,
            local_entries,
            transfers: Vec::new(),
            next_transfer_id: 0,
        }
    }

    /// The remote path of an entry of the current remote directory.
    pub fn remote_child(&self, name: &str) -> (r: String)
        ensures
            r@ == join_remote_spec(self.remote_cwd@, name@),
    {
        join_remote(self.remote_cwd.as_str(), name)
    }

    /// The parent of the current remote directory.
    pub fn remote_parent(&self) -> (r: Result<String, ClientError>)
        ensures
            match parent_remote_spec(self.remote_cwd@) {
                Some(p) => r matches Ok(s) && s@ == p,
                None => r matches Err(ClientError::NoParent(s)) && s@ == self.remote_cwd@,
            },
    {
        parent_remote(self.remote_cwd.as_str())
    }

    /// The local path of an entry of the current local directory.
    pub fn local_child(&self, name: &str) -> (r: String)
        ensures
            r@ == join_local_spec(self.local_cwd@, name@),
    {
        join_local(self.local_cwd.as_str(), name)
    }

    /// The parent of the current local directory, or `NoParent` when it has
    /// none (always so for an empty path and for `/`).
    pub fn local_parent(&self) -> (r: Result<String, ClientError>)
        ensures
            r matches Ok(p) ==> proper_prefix(p@, self.local_cwd@),
            r matches Err(e) ==> (e matches ClientError::NoParent(s) && s@ == self.local_cwd@),
            self.local_cwd@.len() == 0 || self.local_cwd@ == seq!['/'] ==> r is Err,
            plain_child(self.local_cwd@) ==> (r matches Ok(p) && p@ == dir_part(self.local_cwd@)),
    {
        match parent_local(self.local_cwd.as_str()) {
            Some(p) => Ok(p),
            None => Err(ClientError::NoParent(self.local_cwd.clone())),
        }
    }

    /// Enter the directory `name` of the current remote directory, given the
    /// listing of that directory: it becomes the current directory with those
    /// entries; a failed listing is returned and changes nothing.
    pub fn enter_remote_dir(&mut self, name: &str, listing: Result<Vec<RemoteEntry>, ClientError>) -> (r: Result<(), ClientError>)
        ensures
            match listing {
                Ok(es) => r is Ok && remote_moved(*old(self), *final(self), join_remote_spec(old(self).remote_cwd@, name@), es),
                Err(e) => r == Err::<(), ClientError>(e) && *final(self) == *old(self),
            },
    {
        match listing {
            Ok(es) => {
                self.remote_cwd = join_remote(self.remote_cwd.as_str(), name);
                self.remote_entries = es;
                Ok(())
            },
            Err(e) => Err(e),
        }
    }

    /// Go to the parent of the current remote directory, given the listing of
    /// that parent: without a parent the result is `NoParent`; otherwise as
    /// for entering a directory.
    pub fn remote_up(&mut self, listing: Result<Vec<RemoteEntry>, ClientError>) -> (r: Result<(), ClientError>)
        ensures
            match parent_remote_spec(old(self).remote_cwd@) {
                None => (r matches Err(ClientError::NoParent(s)) && s@ == old(self).remote_cwd@)
                    && *final(self) == *old(self),
                Some(p) => match listing {
                    Ok(es) => r is Ok && remote_moved(*old(self), *final(self), p, es),
                    Err(e) => r == Err::<(), ClientError>(e) && *final(self) == *old(self),
                },
            },
    {
        match parent_remote(self.remote_cwd.as_str()) {
            Err(e) => Err(e),
            Ok(p) => match listing {
                Ok(es) => {
                    self.remote_cwd = p;
                    self.remote_entries = es;
                    Ok(())
                },
                Err(e) => Err(e),
            },
        }
    }

    /// The current remote directory was listed again.
    pub fn remote_refreshed(&mut self, listing: Result<Vec<RemoteEntry>, ClientError>) -> (r: Result<(), ClientError>)
        ensures
            match listing {
                Ok(es) => r is Ok && remote_moved(*old(self), *final(self), old(self).remote_cwd@, es)
                    && final(self).remote_cwd == old(self).remote_cwd,
                Err(e) => r == Err::<(), ClientError>(e) && *final(self) == *old(self),
            },
    {
        match listing {
            Ok(es) => {
                self.remote_entries = es;
                Ok(())
            },
            Err(e) => Err(e),
        }
    }

    /// Enter the directory `name` of the current local directory, given the
    /// listing of that directory: it becomes the current directory with those
    /// entries; a failed listing is returned and changes nothing.
    pub fn enter_local_dir(&mut self, name: &str, listing: Result<Vec<LocalEntry>, ClientError>) -> (r: Result<(), ClientError>)
        ensures
            match listing {
                Ok(es) => r is Ok && local_moved(*old(self), *final(self), join_local_spec(old(self).local_cwd@, name@), es),
                Err(e) => r == Err::<(), ClientError>(e) && *final(self) == *old(self),
            },
    {
        match listing {
            Ok(es) => {
                self.local_cwd = join_local(self.local_cwd.as_str(), name);
                self.local_entries = es;
                Ok(())
            },
            Err(e) => Err(e),
        }
    }

    /// Move the local side to `parent`, the result of `local_parent`, given
    /// the listing of that directory: with a parent and its listing the
    /// parent becomes the current directory with the listed entries;
    /// otherwise the first error (no parent, then a failed listing) is
    /// returned and nothing changes.
    pub fn local_moved_up(
        &mut self,
        parent: Result<String, ClientError>,
        listing: Result<Vec<LocalEntry>, ClientError>,
    ) -> (r: Result<(), ClientError>)
        ensures
            match (parent, listing) {
                (Ok(p), Ok(es)) => r is Ok && local_moved(*old(self), *final(self), p@, es),
                (Err(e), _) => r == Err::<(), ClientError>(e) && *final(self) == *old(self),
                (Ok(_), Err(e)) => r == Err::<(), ClientError>(e) && *final(self) == *old(self),
            },
    {
        match parent {
            Err(e) => Err(e),
            Ok(p) => match listing {
                Ok(es) => {
                    self.local_cwd = p;
                    self.local_entries = es;
                    Ok(())
                },
                Err(e) => Err(e),
            },
        }
    }

    /// Go to the parent of the current local directory, given the listing of
    /// that parent: `local_parent` followed by `local_moved_up`. Without a
    /// parent the result is `NoParent` (always so for an empty path and for
    /// `/`); a failed listing is returned; either way nothing changes.
    /// Otherwise the parent (a proper prefix of the old path) is the current
    /// directory with the listed entries.
    pub fn local_up(&mut self, listing: Result<Vec<LocalEntry>, ClientError>) -> (r: Result<(), ClientError>)
        ensures
            r is Ok ==> (listing matches Ok(es) && proper_prefix(final(self).local_cwd@, old(self).local_cwd@)
                && local_moved(*old(self), *final(self), final(self).local_cwd@, es)),
            r is Err ==> *final(self) == *old(self),
            r matches Err(e) ==> ((e matches ClientError::NoParent(s) && s@ == old(self).local_cwd@)
                || listing == Err::<Vec<LocalEntry>, ClientError>(e)),
            listing is Err ==> r is Err,
            old(self).local_cwd@.len() == 0 || old(self).local_cwd@ == seq!['/'] ==> r is Err,
            plain_child(old(self).local_cwd@) ==> match listing {
                Ok(es) => r is Ok && local_moved(*old(self), *final(self), dir_part(old(self).local_cwd@), es),
                Err(e) => r == Err::<(), ClientError>(e) && *final(self) == *old(self),
            },
    {
        let parent = self.local_parent();
        self.local_moved_up(parent, listing)
    }

    /// The current local directory was listed again.
    pub fn local_refreshed(&mut self, listing: Result<Vec<LocalEntry>, ClientError>) -> (r: Result<(), ClientError>)
        ensures
            match listing {
                Ok(es) => r is Ok && local_moved(*old(self), *final(self), old(self).local_cwd@, es)
                    && final(self).local_cwd == old(self).local_cwd,
                Err(e) => r == Err::<(), ClientError>(e) && *final(self) == *old(self),
            },
    {
        match listing {
            Ok(es) => {
                self.local_entries = es;
                Ok(())
            },
            Err(e) => Err(e),
        }
    }

    /// Queue a transfer: it gets the next id and the status `Queued`, and is
    /// added after every earlier job. Returns what its worker needs: the same
    /// id, direction and paths. A well-numbered queue stays well numbered.
    pub fn queue_transfer(
        &mut self,
        direction: TransferDirection,
        local_path: String,
        remote_path: String,
    ) -> (r: QueuedTransfer)
        requires
            old(self).next_transfer_id < u64::MAX,
        ensures
            old(self).wf() ==> final(self).wf(),
            r.id == old(self).next_transfer_id,
            final(self).next_transfer_id == old(self).next_transfer_id + 1,
            r.direction == direction,
            r.remote_path@ == remote_path@,
            r.local_path@ == local_path@,
            final(self).transfers@.len() == old(self).transfers@.len() + 1,
            final(self).transfers@.drop_last() == old(self).transfers@,
            final(self).transfers@.last().id == r.id,
            final(self).transfers@.last().direction == direction,
            final(self).transfers@.last().remote_path@ == remote_path@,
            final(self).transfers@.last().local_path@ == local_path@,
            final(self).remote_cwd == old(self).remote_cwd,
            final(self).remote_entries == old(self).remote_entries,
            final(self).local_cwd == old(self).local_cwd,
            final(self).local_entries == old(self).local_entries,
    {
        let id = self.next_transfer_id;
        self.next_transfer_id = self.next_transfer_id + 1;
        let progress = ProgressReporter::new();
        let status = StatusHandle::new(TransferStatus::Queued);
        let worker = QueuedTransfer {
            id,
            direction,
            local_path: local_path.clone(),
            remote_path: remote_path.clone(),
            progress: progress.clone(),
            status: status.clone(),
        };
        let ghost before = self.transfers@;
        self.transfers.push(
            TransferJob { id, direction, local_path, remote_path, progress, status },
        );
        proof {
            assert(self.transfers@.drop_last() =~= before);
            if old(self).wf() {
                assert forall|i: int| 0 <= i < self.transfers@.len() implies #[trigger] self.transfers@[i].id
                    == i by {
                    if i < before.len() {
                        assert(self.transfers@[i] == before[i]);
                    }
                }
            }
        }
        worker
    }

    /// Queue a download of `name` (in the current remote directory) into the
    /// current local directory.
    pub fn queue_download(&mut self, name: &str) -> (r: QueuedTransfer)
        requires
            old(self).next_transfer_id < u64::MAX,
        ensures
            old(self).wf() ==> final(self).wf(),
            r.id == old(self).next_transfer_id,
            final(self).next_transfer_id == old(self).next_transfer_id + 1,
            r.direction == TransferDirection::Download,
            r.remote_path@ == join_remote_spec(old(self).remote_cwd@, name@),
            r.local_path@ == join_local_spec(old(self).local_cwd@, name@),
            final(self).transfers@.len() == old(self).transfers@.len() + 1,
            final(self).transfers@.drop_last() == old(self).transfers@,
            final(self).transfers@.last().id == r.id,
            final(self).transfers@.last().direction == TransferDirection::Download,
            final(self).transfers@.last().remote_path@ == r.remote_path@,
            final(self).transfers@.last().local_path@ == r.local_path@,
            final(self).remote_cwd == old(self).remote_cwd,
            final(self).remote_entries == old(self).remote_entries,
            final(self).local_cwd == old(self).local_cwd,
            final(self).local_entries == old(self).local_entries,
    {
        let remote_path = join_remote(self.remote_cwd.as_str(), name);
        let local_path = join_local(self.local_cwd.as_str(), name);
        self.queue_transfer(TransferDirection::Download, local_path, remote_path)
    }

    /// Queue an upload of `name` (in the current local directory) into the
    /// current remote directory.
    pub fn queue_upload(&mut self, name: &str) -> (r: QueuedTransfer)
        requires
            old(self).next_transfer_id < u64::MAX,
        ensures
            old(self).wf() ==> final(self).wf(),
            r.id == old(self).next_transfer_id,
            final(self).next_transfer_id == old(self).next_transfer_id + 1,
            r.direction == TransferDirection::Upload,
            r.remote_path@ == join_remote_spec(old(self).remote_cwd@, name@),
            r.local_path@ == join_local_spec(old(self).local_cwd@, name@),
            final(self).transfers@.len() == old(self).transfers@.len() + 1,
            final(self).transfers@.drop_last() == old(self).transfers@,
            final(self).transfers@.last().id == r.id,
            final(self).transfers@.last().direction == TransferDirection::Upload,
            final(self).transfers@.last().remote_path@ == r.remote_path@,
            final(self).transfers@.last().local_path@ == r.local_path@,
            final(self).remote_cwd == old(self).remote_cwd,
            final(self).remote_entries == old(self).remote_entries,
            final(self).local_cwd == old(self).local_cwd,
            final(self).local_entries == old(self).local_entries,
    {
        let local_path = join_local(self.local_cwd.as_str(), name);
        let remote_path = join_remote(self.remote_cwd.as_str(), name);
        self.queue_transfer(TransferDirection::Upload, local_path, remote_path)
    }
}

/// No two queued transfers share an id.
pub proof fn law_transfer_ids_distinct(s: SessionState, i: int, j: int)
    requires
        s.wf(),
        0 <= i < s.transfers@.len(),
        0 <= j < s.transfers@.len(),
        i != j,
    ensures
        s.transfers@[i].id != s.transfers@[j].id,
{
    assert(s.transfers@[i].id == i);
    assert(s.transfers@[j].id == j);
}

/// Going up from a local directory entered by name lands where one started:
/// for a directory `q` (not empty, not ending in `/`, its last part not `.`)
/// and an entry name (neither empty nor `.`, without `/`), neither holding
/// a backslash or `:`, the joined path is `q`, `/` and the name, and its parent
/// (what `local_parent` returns for it) is exactly `q`, one level up.
pub proof fn law_local_parent_of_join(q: Seq<char>, name: Seq<char>)
    requires
        q.len() > 0,
        q.last() != '/',
        !(q.len() >= 2 && q[q.len() - 2] == '/' && q.last() == '.'),
        name.len() > 0,
        name != seq!['.'],
        forall|k: int| 0 <= k < name.len() ==> name[k] != '/',
        forall|k: int| 0 <= k < q.len() ==> ordinary_char(q[k]),
        forall|k: int| 0 <= k < name.len() ==> ordinary_char(name[k]),
    ensures
        join_local_spec(q, name) == q + seq!['/'] + name,
        plain_child(join_local_spec(q, name)),
        dir_part(join_local_spec(q, name)) == q,
        name_part(join_local_spec(q, name)) == name,
{
    let j = q + seq!['/'] + name;
    assert(name[0] != '/');
    assert(join_local_spec(q, name) == j);
    let i = q.len() as int;
    assert(j[i] == '/');
    assert forall|k: int| i < k < j.len() implies j[k] != '/' by {
        assert(j[k] == name[k - i - 1]);
    }
    lemma_last_slash_of(j, i);
    assert(j.take(i) =~= q);
    assert(j.skip(i + 1) =~= name);
    assert forall|k: int| 0 <= k < j.len() implies ordinary_char(j[k]) by {
        if k < i {
            assert(j[k] == q[k]);
        } else if k > i {
            assert(j[k] == name[k - i - 1]);
        }
    }
}

} // verus!
