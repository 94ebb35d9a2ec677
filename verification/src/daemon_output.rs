//! The audit log's core: one entry per resolution attempt, keyed by a
//! correlation id and upserted — re-logging the same id overwrites the
//! earlier entry, never duplicates it. Reading and rewriting the log file
//! is the unverified shell's part; the upsert itself is verified.

use vstd::prelude::*;
use vstd::string::StringExecFns;

verus! {

/// One persisted record of a single resolution attempt. Fields fill in as
/// the attempt progresses.
pub struct DaemonOutputEntry {
    pub id: String,
    pub prompt: Option<String>,
    pub request_body: Option<String>,
    pub response_body: Option<String>,
    pub coordinates: Option<(u32, u32)>,
    pub screenshot: Option<String>,
    pub error: Option<String>,
}

fn clone_opt_string(s: &Option<String>) -> (r: Option<String>)
    ensures
        r == *s,
{
    match s {
        Some(v) => Some(v.clone()),
        None => None,
    }
}

impl Clone for DaemonOutputEntry {
    fn clone(&self) -> (e: Self)
        ensures
            e == *self,
    {
        DaemonOutputEntry {
            id: self.id.clone(),
            prompt: clone_opt_string(&self.prompt),
            request_body: clone_opt_string(&self.request_body),
            response_body: clone_opt_string(&self.response_body),
            coordinates: self.coordinates,
            screenshot: clone_opt_string(&self.screenshot),
            error: clone_opt_string(&self.error),
        }
    }
}

/// Whether some entry carries this correlation id.
pub open spec fn has_entry(entries: Seq<DaemonOutputEntry>, id: Seq<char>) -> bool {
    exists|i: int| 0 <= i < entries.len() && #[trigger] entries[i].id@ == id
}

/// The audit log of one session.
pub struct DaemonOutput {
    pub uuid: String,
}

impl DaemonOutput {
    pub fn new(uuid: String) -> (o: Self)
        ensures
            o.uuid == uuid,
    {
        DaemonOutput { uuid }
    }

    /// The session's log file name: `daemon-<session id>.json`.
    pub fn get_file_path(&self) -> (r: String)
        ensures
            r@ == ("daemon-")@ + self.uuid@ + (".json")@,
    {
        let mut s = String::from_str("daemon-");
        s.append(self.uuid.as_str());
        s.append(".json");
        proof {
            assert(s@ =~= ("daemon-")@ + self.uuid@ + (".json")@);
        }
        s
    }

    /// The file name an entry's screenshot is saved under:
    /// `screenshot-<entry id>.png`.
    pub fn screenshot_file_name(&self, entry_id: &str) -> (r: String)
        ensures
            r@ == ("screenshot-")@ + entry_id@ + (".png")@,
    {
        let mut s = String::from_str("screenshot-");
        s.append(entry_id);
        s.append(".png");
        proof {
            assert(s@ =~= ("screenshot-")@ + entry_id@ + (".png")@);
        }
        s
    }

    /// Upsert by id: the first entry with the same id is overwritten;
    /// otherwise the entry is appended. Nothing is ever deleted.
    pub fn upsert(&self, entries: &mut Vec<DaemonOutputEntry>, entry: &DaemonOutputEntry)
        ensures
            has_entry(old(entries)@, entry.id@) ==> (exists|i: int|
                {
                    &&& 0 <= i < old(entries)@.len()
                    &&& (#[trigger] old(entries)@[i].id@) == entry.id@
                    &&& (forall|j: int| 0 <= j < i ==> old(entries)@[j].id@ != entry.id@)
                    &&& final(entries)@ == old(entries)@.update(i, *entry)
                }),
            !has_entry(old(entries)@, entry.id@) ==> final(entries)@ == old(entries)@.push(*entry),
    {
        let n = entries.len();
        let mut i: usize = 0;
        while i < n
            invariant
                0 <= i <= n,
                n == entries@.len(),
                entries@ == old(entries)@,
                forall|j: int| 0 <= j < i ==> old(entries)@[j].id@ != entry.id@,
            decreases n - i,
        {
            if entries[i].id == entry.id {
                let replacement = entry.clone();
                entries.set(i, replacement);
                proof {
                    assert(old(entries)@[i as int].id@ == entry.id@);
                }
                return ;
            }
            i = i + 1;
        }
        entries.push(entry.clone());
        proof {
            assert(!has_entry(old(entries)@, entry.id@));
        }
    }
}

} // verus!
