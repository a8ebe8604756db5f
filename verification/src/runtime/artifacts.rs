//! The runtime's artifact store: what `artifact.put` stored,
//! `artifact.fetch` gives back until `artifact.release`.

use vstd::prelude::*;

use crate::error::{error_code, error_detail, ARCPError, ErrorCode};
use crate::ids::ArtifactId;
use crate::messages::artifacts::ArtifactRef;
use crate::table::{lemma_table_entry, lemma_table_push, lemma_table_remove, lemma_table_update, table_view, table_wf};
use crate::text::str_eq;
use crate::time::{add_seconds, later_by, UtcTime};

verus! {

broadcast use vstd::string::group_string_axioms;

/// One stored artifact: its id, media type and content.
struct StoredArtifact {
    id: ArtifactId,
    media_type: String,
    data: String,
}

/// Stored artifacts by id.
pub struct ArtifactStore {
    rows: Vec<StoredArtifact>,
}

/// The `arcp://` URI of an artifact.
pub open spec fn artifact_uri(id: Seq<char>) -> Seq<char> {
    "arcp://artifacts/"@ + id
}

/// What a fetch of `id` gives back: the content and its media type.
pub open spec fn fetched(m: Map<Seq<char>, (Seq<char>, Seq<char>)>, id: Seq<char>) -> Option<(Seq<char>, Seq<char>)> {
    if m.contains_key(id) {
        Some(m[id])
    } else {
        None
    }
}

impl ArtifactStore {
    spec fn table(&self) -> Seq<(Seq<char>, (Seq<char>, Seq<char>))> {
        self.rows@.map_values(|r: StoredArtifact| (r.id@, (r.data@, r.media_type@)))
    }

    /// Artifact id to (content, media type).
    pub closed spec fn view(&self) -> Map<Seq<char>, (Seq<char>, Seq<char>)> {
        table_view(self.table())
    }

    /// Invariant: one row per artifact id.
    pub closed spec fn wf(&self) -> bool {
        table_wf(self.table())
    }

    /// No artifacts.
    pub fn new() -> (s: Self)
        ensures
            s.wf(),
            s.view() == Map::<Seq<char>, (Seq<char>, Seq<char>)>::empty(),
    {
        let s = ArtifactStore { rows: Vec::new() };
        assert(s.view() =~= Map::<Seq<char>, (Seq<char>, Seq<char>)>::empty());
        s
    }

    fn find(&self, id: &ArtifactId) -> (r: Option<usize>)
        requires
            self.wf(),
        ensures
            match r {
                Some(i) => i < self.table().len() && self.table()[i as int].0 == id@,
                None => !self.view().contains_key(id@),
            },
    {
        let mut i: usize = 0;
        while i < self.rows.len()
            invariant
                i <= self.rows.len(),
                forall|k: int| 0 <= k < i ==> self.table()[k].0 != id@,
            decreases self.rows.len() - i,
        {
            if str_eq(self.rows[i].id.as_str(), id.as_str()) {
                return Some(i);
            }
            i = i + 1;
        }
        proof {
            if self.view().contains_key(id@) {
                let k = choose|k: int| 0 <= k < self.table().len() && #[trigger] self.table()[k].0 == id@;
                assert(self.table()[k].0 != id@);
            }
        }
        None
    }

    /// Store `data` of `media_type` under `id` (replacing what `id` held)
    /// and return its reference: the `arcp://artifacts/<id>` URI, the size
    /// of the content in bytes, the given digest, and an expiry `retain`
    /// seconds after `now` when a retention was asked for.
    pub fn put(
        &mut self,
        id: ArtifactId,
        media_type: String,
        data: String,
        sha256: Option<String>,
        retain_seconds: Option<u64>,
        now: UtcTime,
    ) -> (r: ArtifactRef)
        requires
            old(self).wf(),
        ensures
            final(self).wf(),
            final(self).view() == old(self).view().insert(id@, (data@, media_type@)),
            r.artifact_id@ == id@,
            r.uri@ == artifact_uri(id@),
            r.media_type@ == media_type@,
            r.size == (vstd::utf8::encode_utf8(data@).len() as usize) as u64,
            r.sha256 == sha256,
            r.expires_at == match retain_seconds {
                Some(secs) => Some(later_by(now, secs)),
                None => None,
            },
    {
        let mut uri = "arcp://artifacts/".to_owned();
        uri.append(id.as_str());
        let size = data.as_str().len() as u64;
        let expires_at = match retain_seconds {
            Some(secs) => Some(add_seconds(now, secs)),
            None => None,
        };
        let reference = ArtifactRef {
            artifact_id: id.clone(),
            uri,
            media_type: media_type.clone(),
            size,
            sha256,
            expires_at,
        };
        let ghost before = self.table();
        let ghost key = id@;
        let ghost value = (data@, media_type@);
        let row = StoredArtifact { id, media_type, data };
        match self.find(&row.id) {
            Some(i) => {
                self.rows.set(i, row);
                assert(self.table() =~= before.update(i as int, (before[i as int].0, value)));
                proof {
                    lemma_table_update(before, i as int, value);
                }
            },
            None => {
                self.rows.push(row);
                assert(self.table() =~= before.push((key, value)));
                proof {
                    lemma_table_push(before, key, value);
                }
            },
        }
        reference
    }

    /// The content and media type stored under `id`; `NOT_FOUND` naming
    /// the id when nothing is.
    pub fn fetch(&self, id: &ArtifactId) -> (r: Result<(String, String), ARCPError>)
        requires
            self.wf(),
        ensures
            match fetched(self.view(), id@) {
                Some(v) => r matches Ok(pair) && pair.0@ == v.0 && pair.1@ == v.1,
                None => r matches Err(e) && error_code(e) == ErrorCode::NotFound && error_detail(e)
                    == "no such artifact: "@ + id@,
            },
    {
        match self.find(id) {
            Some(i) => {
                proof {
                    lemma_table_entry(self.table(), i as int);
                }
                let row = &self.rows[i];
                Ok((row.data.clone(), row.media_type.clone()))
            },
            None => {
                let mut detail = "no such artifact: ".to_owned();
                detail.append(id.as_str());
                Err(ARCPError::NotFound { detail })
            },
        }
    }

    /// Forget `id` (`artifact.release`).
    pub fn release(&mut self, id: &ArtifactId)
        requires
            old(self).wf(),
        ensures
            final(self).wf(),
            final(self).view() == old(self).view().remove(id@),
    {
        match self.find(id) {
            Some(i) => {
                let ghost before = self.table();
                let _ = self.rows.remove(i);
                assert(self.table() =~= before.remove(i as int));
                proof {
                    lemma_table_remove(before, i as int);
                }
            },
            None => {
                assert(self.view().remove(id@) =~= self.view());
            },
        }
    }
}

/// A fetch gives back what the last put of the same id stored, is not
/// affected by a put of another id, and finds nothing after a release.
pub proof fn lemma_fetch_after_put(
    m: Map<Seq<char>, (Seq<char>, Seq<char>)>,
    id: Seq<char>,
    stored: (Seq<char>, Seq<char>),
    other: Seq<char>,
)
    ensures
        fetched(m.insert(id, stored), id) == Some(stored),
        other != id ==> fetched(m.insert(id, stored), other) == fetched(m, other),
        fetched(m.remove(id), id) is None,
        other != id ==> fetched(m.remove(id), other) == fetched(m, other),
{
}

} // verus!
