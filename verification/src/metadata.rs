//! What the program remembers of the directories it has worked in: one entry per directory and
//! environment, and where each keeps its sessions.
use vstd::prelude::*;

use crate::paths::{join, join_spec};
use crate::text::{owned, push_str, str_eq};

verus! {

/// The file that holds the metadata, in the share directory.
pub fn get_metadata_file(share_dir: &str) -> (r: String)
    ensures
        r@ == join_spec(share_dir@, "kimi.json"@),
{
    join(share_dir, "kimi.json")
}

/// The name of the local environment, the one a directory has unless its entry says otherwise.
pub open spec fn local_kaos() -> Seq<char> {
    "local"@
}

/// The environment an entry has when it names none.
pub fn default_kaos_name() -> (r: String)
    ensures
        r@ == local_kaos(),
{
    owned("local")
}

/// The MD5 digest of the bytes, written as 32 lowercase hexadecimal digits.
pub uninterp spec fn md5_hex(data: Seq<u8>) -> Seq<char>;

/// Whether a character is a lowercase hexadecimal digit.
pub open spec fn is_lower_hex(c: char) -> bool {
    ('0' <= c <= '9') || ('a' <= c <= 'f')
}

/// `format!("{:x}", md5::compute(data))`: the digest's sixteen bytes, each as two lowercase
/// hexadecimal digits.
#[verifier::external_body]
fn md5_hex_digest(data: &[u8]) -> (r: String)
    ensures
        r@ == md5_hex(data@),
        r@.len() == 32,
        forall|i: int| 0 <= i < r@.len() ==> is_lower_hex(#[trigger] r@[i]),
{
    format!("{:x}", md5::compute(data))
}

/// A directory the program has worked in, the environment it was reached through, and the
/// session last used there.
#[derive(Clone, Debug)]
pub struct WorkDirMeta {
    pub path: String,
    pub kaos: String,
    pub last_session_id: Option<String>,
}

/// The name of a directory's sessions directory: the digest of its path, prefixed by the
/// environment's name unless that is the local one.
pub open spec fn sessions_basename(path: Seq<char>, kaos: Seq<char>) -> Seq<char> {
    let hash = md5_hex(vstd::utf8::encode_utf8(path));
    if kaos == local_kaos() {
        hash
    } else {
        kaos + "_"@ + hash
    }
}

impl WorkDirMeta {
    /// The directory that holds this directory's sessions, under the share directory.
    pub fn sessions_dir(&self, share_dir: &str) -> (r: String)
        ensures
            r@ == join_spec(join_spec(share_dir@, "sessions"@), sessions_basename(self.path@, self.kaos@)),
    {
        let hash = md5_hex_digest(self.path.as_str().as_bytes());
        let local = default_kaos_name();
        let base = if str_eq(self.kaos.as_str(), local.as_str()) {
            hash
        } else {
            let mut b = self.kaos.clone();
            push_str(&mut b, "_");
            push_str(&mut b, hash.as_str());
            b
        };
        let sessions = join(share_dir, "sessions");
        join(sessions.as_str(), base.as_str())
    }
}

/// The entries the program remembers.
pub struct Metadata {
    pub work_dirs: Vec<WorkDirMeta>,
}

impl Default for Metadata {
    fn default() -> (r: Metadata)
        ensures
            r.work_dirs@.len() == 0,
    {
        Metadata { work_dirs: Vec::new() }
    }
}

/// The index of the first entry for a path and environment, from `i` on.
pub open spec fn entry_index(ws: Seq<WorkDirMeta>, path: Seq<char>, kaos: Seq<char>, i: int) -> Option<int>
    decreases ws.len() - i,
{
    if i < 0 || i >= ws.len() {
        None
    } else if ws[i].path@ == path && ws[i].kaos@ == kaos {
        Some(i)
    } else {
        entry_index(ws, path, kaos, i + 1)
    }
}

/// The view of an entry: path, environment and last session.
pub open spec fn meta_view(m: WorkDirMeta) -> (Seq<char>, Seq<char>, Option<Seq<char>>) {
    (
        m.path@,
        m.kaos@,
        match m.last_session_id {
            Some(s) => Some(s@),
            None => None,
        },
    )
}

fn copy_meta(m: &WorkDirMeta) -> (r: WorkDirMeta)
    ensures
        meta_view(r) == meta_view(*m),
{
    WorkDirMeta {
        path: m.path.clone(),
        kaos: m.kaos.clone(),
        last_session_id: match &m.last_session_id {
            Some(s) => Some(s.clone()),
            None => None,
        },
    }
}

impl Metadata {
    /// The first entry for a path in the current environment.
    pub fn get_work_dir_meta(&self, path: &str, kaos_name: &str) -> (r: Option<WorkDirMeta>)
        ensures
            match entry_index(self.work_dirs@, path@, kaos_name@, 0) {
                Some(i) => r matches Some(m) && meta_view(m) == meta_view(self.work_dirs@[i]),
                None => r is None,
            },
    {
        let mut i: usize = 0;
        while i < self.work_dirs.len()
            invariant
                i <= self.work_dirs@.len(),
                entry_index(self.work_dirs@, path@, kaos_name@, 0) == entry_index(self.work_dirs@, path@, kaos_name@, i as int),
            decreases self.work_dirs@.len() - i,
        {
            let w = &self.work_dirs[i];
            if str_eq(w.path.as_str(), path) && str_eq(w.kaos.as_str(), kaos_name) {
                return Some(copy_meta(w));
            }
            i = i + 1;
        }
        None
    }

    /// Remembers a new entry for a path in the current environment, with no session yet, and
    /// returns it.
    pub fn new_work_dir_meta(&mut self, path: &str, kaos_name: &str) -> (r: WorkDirMeta)
        ensures
            meta_view(r) == (path@, kaos_name@, None::<Seq<char>>),
            final(self).work_dirs@.len() == old(self).work_dirs@.len() + 1,
            final(self).work_dirs@.take(old(self).work_dirs@.len() as int) == old(self).work_dirs@,
            meta_view(final(self).work_dirs@.last()) == meta_view(r),
    {
        let meta = WorkDirMeta { path: owned(path), kaos: owned(kaos_name), last_session_id: None };
        let ghost w0 = self.work_dirs@;
        self.work_dirs.push(copy_meta(&meta));
        assert(self.work_dirs@.take(w0.len() as int) =~= w0);
        meta
    }
}

/// After a new entry is remembered for a path and environment, looking the pair up finds an
/// entry for it: the new one, unless an earlier one was there already.
pub proof fn lemma_new_entry_found(before: Seq<WorkDirMeta>, after: Seq<WorkDirMeta>, path: Seq<char>, kaos: Seq<char>)
    requires
        after.len() == before.len() + 1,
        after.take(before.len() as int) == before,
        meta_view(after.last()).0 == path,
        meta_view(after.last()).1 == kaos,
    ensures
        entry_index(after, path, kaos, 0) == match entry_index(before, path, kaos, 0) {
            Some(i) => Some(i),
            None => Some(before.len() as int),
        },
{
    lemma_entry_prefix(before, after, path, kaos, 0);
}

proof fn lemma_entry_prefix(before: Seq<WorkDirMeta>, after: Seq<WorkDirMeta>, path: Seq<char>, kaos: Seq<char>, i: int)
    requires
        0 <= i <= before.len(),
        after.len() == before.len() + 1,
        after.take(before.len() as int) == before,
        after.last().path@ == path,
        after.last().kaos@ == kaos,
    ensures
        entry_index(after, path, kaos, i) == match entry_index(before, path, kaos, i) {
            Some(k) => Some(k),
            None => Some(before.len() as int),
        },
    decreases before.len() - i,
{
    if i < before.len() {
        assert(after[i] == before[i]);
        lemma_entry_prefix(before, after, path, kaos, i + 1);
    }
}

} // verus!
