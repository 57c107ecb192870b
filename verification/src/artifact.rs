use vstd::prelude::*;

use crate::context::{json_parse, json_parsed, json_text, json_to_string};
use crate::text::{append_str, concat2, owned, str_eq};

verus! {

/// Serialized size above which an artifact is kept in a file, when the
/// store has a directory for files (100 KiB).
pub const FILE_BACKING_THRESHOLD: usize = 102400;

/// What is known about a stored artifact.
#[derive(Debug, Clone)]
pub struct ArtifactInfo {
    pub id: String,
    pub name: String,
    /// Length of the artifact's JSON text, in bytes.
    pub size_bytes: usize,
    /// When it was stored, as RFC 3339 text.
    pub stored_at: String,
    pub is_file_backed: bool,
}

/// Where an artifact's data is: its JSON text in memory, or the path of the
/// file that holds it.
pub enum StoredData {
    InMemory(String),
    FileBacked(String),
}

pub struct InfoView {
    pub id: Seq<char>,
    pub name: Seq<char>,
    pub size_bytes: nat,
    pub stored_at: Seq<char>,
    pub is_file_backed: bool,
}

pub enum DataView {
    InMemory(Seq<char>),
    FileBacked(Seq<char>),
}

impl View for ArtifactInfo {
    type V = InfoView;

    open spec fn view(&self) -> InfoView {
        InfoView {
            id: self.id@,
            name: self.name@,
            size_bytes: self.size_bytes as nat,
            stored_at: self.stored_at@,
            is_file_backed: self.is_file_backed,
        }
    }
}

impl View for StoredData {
    type V = DataView;

    open spec fn view(&self) -> DataView {
        match self {
            StoredData::InMemory(t) => DataView::InMemory(t@),
            StoredData::FileBacked(p) => DataView::FileBacked(p@),
        }
    }
}

impl ArtifactInfo {
    /// A copy of the information.
    pub fn duplicate(&self) -> (r: ArtifactInfo)
        ensures
            r@ == self@,
    {
        ArtifactInfo {
            id: owned(self.id.as_str()),
            name: owned(self.name.as_str()),
            size_bytes: self.size_bytes,
            stored_at: owned(self.stored_at.as_str()),
            is_file_backed: self.is_file_backed,
        }
    }
}

impl StoredData {
    /// A copy of the location.
    pub fn duplicate(&self) -> (r: StoredData)
        ensures
            r@ == self@,
    {
        match self {
            StoredData::InMemory(t) => StoredData::InMemory(owned(t.as_str())),
            StoredData::FileBacked(p) => StoredData::FileBacked(owned(p.as_str())),
        }
    }
}

pub open spec fn entry_views(v: Seq<(ArtifactInfo, StoredData)>) -> Seq<(InfoView, DataView)> {
    v.map_values(|e: (ArtifactInfo, StoredData)| (e.0@, e.1@))
}

/// Position of the entry for artifact `id`.
pub open spec fn position_of(es: Seq<(InfoView, DataView)>, id: Seq<char>) -> Option<int>
    decreases es.len(),
{
    if es.len() == 0 {
        None
    } else if es.last().0.id == id {
        Some(es.len() - 1)
    } else {
        position_of(es.drop_last(), id)
    }
}

/// The entries after storing `e`: it replaces the entry with its id, or
/// is added.
pub open spec fn put(es: Seq<(InfoView, DataView)>, e: (InfoView, DataView)) -> Seq<(InfoView, DataView)> {
    match position_of(es, e.0.id) {
        Some(i) => es.update(i, e),
        None => es.push(e),
    }
}

/// The entries without the one for `id`.
pub open spec fn without(es: Seq<(InfoView, DataView)>, id: Seq<char>) -> Seq<(InfoView, DataView)> {
    match position_of(es, id) {
        Some(i) => es.remove(i),
        None => es,
    }
}

/// The data stored for `id`, if any.
pub open spec fn data_of(es: Seq<(InfoView, DataView)>, id: Seq<char>) -> Option<DataView> {
    match position_of(es, id) {
        Some(i) => Some(es[i].1),
        None => None,
    }
}

/// Ids occur at most once.
pub open spec fn ids_unique(es: Seq<(InfoView, DataView)>) -> bool {
    forall|i: int, j: int| 0 <= i < j < es.len() ==> es[i].0.id != es[j].0.id
}

pub proof fn lemma_position_of(es: Seq<(InfoView, DataView)>, id: Seq<char>)
    ensures
        match position_of(es, id) {
            Some(i) => 0 <= i < es.len() && es[i].0.id == id,
            None => forall|j: int| 0 <= j < es.len() ==> es[j].0.id != id,
        },
    decreases es.len(),
{
    if es.len() > 0 && es.last().0.id != id {
        lemma_position_of(es.drop_last(), id);
        match position_of(es.drop_last(), id) {
            Some(i) => {
                assert(es[i] == es.drop_last()[i]);
            },
            None => {
                assert forall|j: int| 0 <= j < es.len() implies es[j].0.id != id by {
                    if j < es.len() - 1 {
                        assert(es[j] == es.drop_last()[j]);
                    }
                }
            },
        }
    }
}

/// With unique ids, the position of an id is the one entry that has it.
pub proof fn lemma_position_unique(es: Seq<(InfoView, DataView)>, id: Seq<char>, k: int)
    requires
        ids_unique(es),
        0 <= k < es.len(),
        es[k].0.id == id,
    ensures
        position_of(es, id) == Some(k),
{
    lemma_position_of(es, id);
    match position_of(es, id) {
        Some(i) => {
            if i != k {
                if i < k {
                    assert(es[i].0.id != es[k].0.id);
                } else {
                    assert(es[k].0.id != es[i].0.id);
                }
            }
        },
        None => {
            assert(es[k].0.id != id);
        },
    }
}

/// Index of stored artifacts, by id. The data of a file-backed artifact is
/// in the file whose path its entry names.
pub struct ArtifactIndex {
    has_base_dir: bool,
    entries: Vec<(ArtifactInfo, StoredData)>,
}

impl View for ArtifactIndex {
    type V = Seq<(InfoView, DataView)>;

    closed spec fn view(&self) -> Seq<(InfoView, DataView)> {
        entry_views(self.entries@)
    }
}

impl ArtifactIndex {
    #[verifier::type_invariant]
    spec fn unique(&self) -> bool {
        ids_unique(entry_views(self.entries@))
    }

    pub closed spec fn file_backing(&self) -> bool {
        self.has_base_dir
    }

    /// An empty index; `has_base_dir` tells whether large artifacts may go
    /// to files.
    pub fn new(has_base_dir: bool) -> (s: ArtifactIndex)
        ensures
            s@ == Seq::<(InfoView, DataView)>::empty(),
            s.file_backing() == has_base_dir,
            ids_unique(s@),
    {
        let s = ArtifactIndex { has_base_dir, entries: Vec::new() };
        assert(s@ =~= Seq::<(InfoView, DataView)>::empty());
        s
    }

    /// Whether an artifact of this many bytes goes to a file: when it is
    /// larger than the threshold and there is a directory for files.
    pub fn goes_to_file(&self, size_bytes: usize) -> (r: bool)
        ensures
            r == (size_bytes > FILE_BACKING_THRESHOLD && self.file_backing()),
    {
        size_bytes > FILE_BACKING_THRESHOLD && self.has_base_dir
    }

    fn find(&self, id: &str) -> (r: Option<usize>)
        ensures
            self@.len() == self.entries.len(),
            match position_of(self@, id@) {
                Some(i) => r == Some(i as usize) && 0 <= i < self.entries.len(),
                None => r is None,
            },
    {
        proof {
            use_type_invariant(self);
        }
        let ghost es = self@;
        let mut i: usize = 0;
        while i < self.entries.len()
            invariant
                i <= self.entries.len(),
                es == self@,
                es.len() == self.entries.len(),
                ids_unique(es),
                forall|j: int| 0 <= j < i ==> es[j].0.id != id@,
            decreases self.entries.len() - i,
        {
            assert(es[i as int].0.id == self.entries@[i as int].0.id@);
            if str_eq(self.entries[i].0.id.as_str(), id) {
                proof {
                    lemma_position_unique(es, id@, i as int);
                }
                return Some(i);
            }
            i += 1;
        }
        proof {
            lemma_position_of(es, id@);
            match position_of(es, id@) {
                Some(k) => {
                    assert(es[k].0.id != id@);
                },
                None => {},
            }
        }
        None
    }

    /// Records an artifact, replacing any artifact with the same id.
    pub fn record(&mut self, info: ArtifactInfo, data: StoredData)
        ensures
            final(self)@ == put(old(self)@, (info@, data@)),
            final(self).file_backing() == old(self).file_backing(),
            ids_unique(old(self)@),
            ids_unique(final(self)@),
    {
        proof {
            use_type_invariant(&*self);
        }
        let ghost es = self@;
        let ghost e = (info@, data@);
        let pos = self.find(info.id.as_str());
        proof {
            lemma_position_of(es, info@.id);
        }
        let mut entries: Vec<(ArtifactInfo, StoredData)> = Vec::new();
        std::mem::swap(&mut entries, &mut self.entries);
        match pos {
            Some(i) => {
                entries.set(i, (info, data));
                proof {
                    let t = entry_views(entries@);
                    assert(t =~= es.update(i as int, e));
                    assert forall|a: int, b: int| 0 <= a < b < t.len() implies t[a].0.id != t[b].0.id by {
                        if a != i && b != i {
                            assert(t[a] == es[a] && t[b] == es[b]);
                        } else if a == i {
                            assert(t[b] == es[b]);
                            assert(es[a].0.id == e.0.id);
                        } else {
                            assert(t[a] == es[a]);
                            assert(es[b].0.id == e.0.id);
                        }
                    }
                }
            },
            None => {
                entries.push((info, data));
                proof {
                    let t = entry_views(entries@);
                    assert(t =~= es.push(e));
                    assert forall|a: int, b: int| 0 <= a < b < t.len() implies t[a].0.id != t[b].0.id by {
                        if b < es.len() {
                            assert(t[a] == es[a] && t[b] == es[b]);
                        } else {
                            assert(t[a] == es[a]);
                        }
                    }
                }
            },
        }
        self.entries = entries;
    }

    /// Where the data of artifact `id` is.
    pub fn lookup(&self, id: &str) -> (r: Result<&StoredData, String>)
        ensures
            match data_of(self@, id@) {
                Some(d) => r matches Ok(x) && x@ == d,
                None => r matches Err(e) && e@ == "artifact not found: "@ + id@,
            },
    {
        match self.find(id) {
            Some(i) => {
                assert(self@[i as int].1 == self.entries@[i as int].1@);
                Ok(&self.entries[i].1)
            },
            None => Err(concat2("artifact not found: ", id)),
        }
    }

    /// Whether artifact `id` is stored.
    pub fn has(&self, id: &str) -> (r: bool)
        ensures
            r == (position_of(self@, id@) is Some),
            ids_unique(self@),
    {
        proof {
            use_type_invariant(self);
        }
        self.find(id).is_some()
    }

    /// The information of every stored artifact.
    pub fn list(&self) -> (r: Vec<ArtifactInfo>)
        ensures
            r@.map_values(|i: ArtifactInfo| i@) == self@.map_values(|e: (InfoView, DataView)| e.0),
    {
        let ghost es = self@;
        let mut r: Vec<ArtifactInfo> = Vec::new();
        let mut i: usize = 0;
        while i < self.entries.len()
            invariant
                i <= self.entries.len(),
                es == self@,
                es.len() == self.entries.len(),
                r@.map_values(|x: ArtifactInfo| x@) == es.take(i as int).map_values(|e: (InfoView, DataView)| e.0),
            decreases self.entries.len() - i,
        {
            let ghost before = r@.map_values(|x: ArtifactInfo| x@);
            r.push(self.entries[i].0.duplicate());
            assert(r@.map_values(|x: ArtifactInfo| x@) =~= before.push(es[i as int].0));
            assert(es.take(i + 1).map_values(|e: (InfoView, DataView)| e.0) =~= es.take(i as int).map_values(
                |e: (InfoView, DataView)| e.0,
            ).push(es[i as int].0));
            i += 1;
        }
        assert(es.take(es.len() as int) =~= es);
        r
    }

    /// Forgets artifact `id`; gives back where its data was, so that a file
    /// can be deleted.
    pub fn remove(&mut self, id: &str) -> (r: Option<StoredData>)
        ensures
            final(self)@ == without(old(self)@, id@),
            final(self).file_backing() == old(self).file_backing(),
            ids_unique(old(self)@),
            ids_unique(final(self)@),
            match data_of(old(self)@, id@) {
                Some(d) => r matches Some(x) && x@ == d,
                None => r is None,
            },
    {
        proof {
            use_type_invariant(&*self);
        }
        let ghost es = self@;
        match self.find(id) {
            Some(i) => {
                let mut entries: Vec<(ArtifactInfo, StoredData)> = Vec::new();
        std::mem::swap(&mut entries, &mut self.entries);
                let (_, data) = entries.remove(i);
                proof {
                    let t = entry_views(entries@);
                    assert(t =~= es.remove(i as int));
                    assert forall|a: int, b: int| 0 <= a < b < t.len() implies t[a].0.id != t[b].0.id by {
                        if b < i {
                            assert(t[a] == es[a] && t[b] == es[b]);
                        } else if a < i {
                            assert(t[a] == es[a] && t[b] == es[b + 1]);
                        } else {
                            assert(t[a] == es[a + 1] && t[b] == es[b + 1]);
                        }
                    }
                }
                self.entries = entries;
                Some(data)
            },
            None => None,
        }
    }

    /// Forgets all artifacts; gives back where their data was.
    pub fn clear(&mut self) -> (r: Vec<StoredData>)
        ensures
            final(self)@ == Seq::<(InfoView, DataView)>::empty(),
            final(self).file_backing() == old(self).file_backing(),
            r@.map_values(|d: StoredData| d@) == old(self)@.map_values(|e: (InfoView, DataView)| e.1),
    {
        let mut entries: Vec<(ArtifactInfo, StoredData)> = Vec::new();
        std::mem::swap(&mut entries, &mut self.entries);
        let ghost es = entry_views(entries@);
        let mut r: Vec<StoredData> = Vec::new();
        let mut i: usize = 0;
        while i < entries.len()
            invariant
                i <= entries.len(),
                es == entry_views(entries@),
                r@.map_values(|d: StoredData| d@) == es.take(i as int).map_values(|e: (InfoView, DataView)| e.1),
            decreases entries.len() - i,
        {
            let ghost before = r@.map_values(|d: StoredData| d@);
            r.push(entries[i].1.duplicate());
            assert(r@.map_values(|d: StoredData| d@) =~= before.push(es[i as int].1));
            assert(es.take(i + 1).map_values(|e: (InfoView, DataView)| e.1) =~= es.take(i as int).map_values(
                |e: (InfoView, DataView)| e.1,
            ).push(es[i as int].1));
            i += 1;
        }
        assert(es.take(es.len() as int) =~= es);
        assert(self@ =~= Seq::<(InfoView, DataView)>::empty());
        r
    }
}

/// The name of the file that holds a file-backed artifact: `<id>.json`.
pub fn artifact_file_name(id: &str) -> (r: String)
    ensures
        r@ == id@ + ".json"@,
{
    concat2(id, ".json")
}

/// The JSON text an artifact is stored as: the compact text of its value.
pub fn artifact_json_text(data: &serde_json::Value) -> (r: String)
    ensures
        r@ == json_text(*data),
{
    json_to_string(data)
}

/// The JSON value that an artifact's stored text holds; an error naming the
/// artifact when the text is not JSON.
pub fn artifact_value(id: &str, text: &str) -> (r: Result<serde_json::Value, String>)
    ensures
        match json_parsed(text@) {
            Some(v) => r matches Ok(x) && x == v,
            None => r matches Err(e) && ("failed to deserialize file-backed artifact "@ + id@ + ": "@).is_prefix_of(e@),
        },
{
    match json_parse(text) {
        Ok(v) => Ok(v),
        Err(e) => {
            let mut m = concat2("failed to deserialize file-backed artifact ", id);
            append_str(&mut m, ": ");
            let ghost head = m@;
            append_str(&mut m, e.as_str());
            assert(head.is_prefix_of(m@)) by {
                assert(m@.subrange(0, head.len() as int) =~= head);
            }
            Err(m)
        },
    }
}

/// Reading an artifact right after storing it gives what was stored.
pub proof fn law_lookup_after_record(es: Seq<(InfoView, DataView)>, e: (InfoView, DataView))
    requires
        ids_unique(es),
    ensures
        data_of(put(es, e), e.0.id) == Some(e.1),
        ids_unique(put(es, e)),
{
    lemma_position_of(es, e.0.id);
    let t = put(es, e);
    match position_of(es, e.0.id) {
        Some(i) => {
            assert forall|a: int, b: int| 0 <= a < b < t.len() implies t[a].0.id != t[b].0.id by {
                if a != i && b != i {
                } else if a == i {
                    assert(es[a].0.id == e.0.id);
                } else {
                    assert(es[b].0.id == e.0.id);
                }
            }
            lemma_position_unique(t, e.0.id, i);
        },
        None => {
            assert forall|a: int, b: int| 0 <= a < b < t.len() implies t[a].0.id != t[b].0.id by {
                if b == es.len() {
                    assert(t[a] == es[a]);
                }
            }
            lemma_position_unique(t, e.0.id, es.len() as int);
        },
    }
}

/// Storing one artifact leaves the data of every other artifact as it was.
pub proof fn law_record_keeps_others(es: Seq<(InfoView, DataView)>, e: (InfoView, DataView), other: Seq<char>)
    requires
        ids_unique(es),
        other != e.0.id,
    ensures
        data_of(put(es, e), other) == data_of(es, other),
{
    law_lookup_after_record(es, e);
    let t = put(es, e);
    lemma_position_of(es, other);
    lemma_position_of(es, e.0.id);
    match position_of(es, other) {
        Some(k) => {
            lemma_position_unique(t, other, k);
        },
        None => {
            lemma_position_of(t, other);
            match position_of(t, other) {
                Some(k) => {
                    if k < es.len() {
                        match position_of(es, e.0.id) {
                            Some(i) => {
                                if k != i {
                                    assert(t[k] == es[k]);
                                }
                            },
                            None => {
                                assert(t[k] == es[k]);
                            },
                        }
                    }
                },
                None => {},
            }
        },
    }
}

/// After an artifact is removed, it is no longer found.
pub proof fn law_removed_not_found(es: Seq<(InfoView, DataView)>, id: Seq<char>)
    requires
        ids_unique(es),
    ensures
        position_of(without(es, id), id) is None,
{
    lemma_position_of(es, id);
    let t = without(es, id);
    lemma_position_of(t, id);
    match position_of(es, id) {
        Some(i) => {
            match position_of(t, id) {
                Some(k) => {
                    if k < i {
                        assert(t[k] == es[k]);
                        assert(es[k].0.id != es[i].0.id);
                    } else {
                        assert(t[k] == es[k + 1]);
                        assert(es[i].0.id != es[k + 1].0.id);
                    }
                },
                None => {},
            }
        },
        None => {},
    }
}

} // verus!
