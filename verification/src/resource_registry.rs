//! The resources that scripts can ask about: their states, paths and metadata.
use crate::engine::texts;
use crate::named::{lists_names, names_in_order, TextMap};
use crate::state_bag::optional;
use crate::text::{chars_of, find_char, lemma_position, position_of, same, string_between};
use vstd::prelude::*;
use vstd::slice::{slice_subrange, slice_to_vec};
use vstd::string::{StrSliceExecFns, StringExecFns};
use vstd::utf8::encode_utf8;

verus! {

/// FXServer-style resource states exposed to scripts.
#[derive(Debug, Clone, Copy, PartialEq, Eq, Structural)]
pub enum ScriptResourceState {
    Uninitialized,
    Starting,
    Started,
    Stopped,
    Missing,
    Unknown,
}

/// The name of a state.
pub open spec fn state_name(state: ScriptResourceState) -> Seq<char> {
    match state {
        ScriptResourceState::Uninitialized => "uninitialized"@,
        ScriptResourceState::Starting => "starting"@,
        ScriptResourceState::Started => "started"@,
        ScriptResourceState::Stopped => "stopped"@,
        ScriptResourceState::Missing => "missing"@,
        ScriptResourceState::Unknown => "unknown"@,
    }
}

impl ScriptResourceState {
    pub fn as_str(self) -> (name: &'static str)
        ensures
            name@ == state_name(self),
    {
        match self {
            ScriptResourceState::Uninitialized => "uninitialized",
            ScriptResourceState::Starting => "starting",
            ScriptResourceState::Started => "started",
            ScriptResourceState::Stopped => "stopped",
            ScriptResourceState::Missing => "missing",
            ScriptResourceState::Unknown => "unknown",
        }
    }
}

/// What a resource's manifest declares.
#[derive(Debug, Clone, PartialEq, Eq)]
pub struct ResourceManifest {
    pub version: Option<String>,
    pub dependencies: Vec<String>,
    pub server_scripts: Vec<String>,
    pub client_scripts: Vec<String>,
    pub files: Vec<String>,
}

#[derive(Debug)]
struct ResourceRecord {
    root: String,
    manifest: ResourceManifest,
    state: ScriptResourceState,
}

/// What is known of a resource.
#[verifier::ext_equal]
pub struct RecordModel {
    pub root: Seq<char>,
    pub version: Option<Seq<char>>,
    pub dependencies: Seq<Seq<char>>,
    pub server_scripts: Seq<Seq<char>>,
    pub client_scripts: Seq<Seq<char>>,
    pub files: Seq<Seq<char>>,
    pub state: ScriptResourceState,
}

/// The record of a resource with a root, a manifest and a state.
pub open spec fn record_of(
    root: Seq<char>,
    manifest: ResourceManifest,
    state: ScriptResourceState,
) -> RecordModel {
    RecordModel {
        root,
        version: optional(manifest.version),
        dependencies: texts(manifest.dependencies@),
        server_scripts: texts(manifest.server_scripts@),
        client_scripts: texts(manifest.client_scripts@),
        files: texts(manifest.files@),
        state,
    }
}

impl ResourceRecord {
    spec fn model(&self) -> RecordModel {
        record_of(self.root@, self.manifest, self.state)
    }
}

/// The values of a metadata key.
pub open spec fn metadata_of(record: RecordModel, key: Seq<char>) -> Seq<Seq<char>> {
    if key == "version"@ {
        match record.version {
            Some(version) => seq![version],
            None => Seq::empty(),
        }
    } else if key == "dependency"@ {
        record.dependencies
    } else if key == "server_script"@ {
        record.server_scripts
    } else if key == "client_script"@ {
        record.client_scripts
    } else if key == "file"@ {
        record.files
    } else {
        Seq::empty()
    }
}

/// The values of a resource's metadata key; none where the resource is unknown.
pub open spec fn metadata(
    all: Map<Seq<char>, RecordModel>,
    name: Seq<char>,
    key: Seq<char>,
) -> Seq<Seq<char>> {
    if all.contains_key(name) {
        metadata_of(all[name], key)
    } else {
        Seq::empty()
    }
}

/// The item at a position, or nothing.
pub open spec fn at_or_empty(list: Seq<Seq<char>>, index: int) -> Seq<char> {
    if 0 <= index < list.len() {
        list[index]
    } else {
        Seq::empty()
    }
}

// --- paths ---

/// The parts of a path from `from` on, between its slashes.
pub open spec fn components(path: Seq<char>, from: int) -> Seq<Seq<char>>
    decreases path.len() - from,
{
    let end = position_of(path, '/', from);
    if 0 <= from <= end < path.len() {
        seq![path.subrange(from, end)] + components(path, end + 1)
    } else if 0 <= from <= path.len() {
        seq![path.subrange(from, path.len() as int)]
    } else {
        Seq::empty()
    }
}

/// A part that names nothing: an empty one, or the directory itself.
pub open spec fn idle(part: Seq<char>) -> bool {
    part.len() == 0 || part == seq!['.']
}

/// The parts that name something, with slashes between them.
pub open spec fn joined_parts(parts: Seq<Seq<char>>) -> Seq<char>
    decreases parts.len(),
{
    if parts.len() == 0 {
        Seq::empty()
    } else {
        let before = joined_parts(parts.drop_last());
        if idle(parts.last()) {
            before
        } else if before.len() == 0 {
            parts.last()
        } else {
            before + seq!['/'] + parts.last()
        }
    }
}

/// Whether any part leads to the parent directory.
pub open spec fn climbs(parts: Seq<Seq<char>>) -> bool {
    exists|i: int| 0 <= i < parts.len() && #[trigger] parts[i] == seq!['.', '.']
}

/// A relative path without idle parts. Nothing where the path is absolute, or leads out
/// of the directory it is relative to.
pub open spec fn sanitized(raw: Seq<char>) -> Option<Seq<char>> {
    if raw.len() > 0 && raw[0] == '/' {
        None
    } else if climbs(components(raw, 0)) {
        None
    } else {
        Some(joined_parts(components(raw, 0)))
    }
}

proof fn lemma_split(parts: Seq<Seq<char>>, rest: Seq<Seq<char>>, all: Seq<Seq<char>>)
    requires
        all == parts + rest,
        rest.len() > 0,
    ensures
        all == parts.push(rest[0]) + rest.skip(1),
{
    assert(all =~= parts.push(rest[0]) + rest.skip(1));
}

/// Check a path that a script gave, in the form that Unix paths have.
fn sanitize_relative_path(raw: &str) -> (path: Option<String>)
    ensures
        optional(path) == sanitized(raw@),
{
    let chars = chars_of(raw);
    if chars.len() > 0 && chars[0] == '/' {
        return None;
    }
    let ghost all = components(chars@, 0);
    let ghost mut parts: Seq<Seq<char>> = Seq::empty();
    let mut out = String::new();
    let mut from: usize = 0;
    let mut more = true;
    assert(parts + components(chars@, 0) =~= all);
    assert(out@ =~= joined_parts(parts));
    while more
        invariant
            from <= chars@.len() + 1,
            more ==> from <= chars@.len(),
            chars@ == raw@,
            !(raw@.len() > 0 && raw@[0] == '/'),
            all == components(chars@, 0),
            more ==> all == parts + components(chars@, from as int),
            !more ==> all == parts,
            out@ == joined_parts(parts),
            !climbs(parts),
        decreases (if more {
            1int
        } else {
            0int
        }), chars@.len() + 1 - from,
    {
        let end: usize = find_char(&chars, '/', from);
        let part = string_between(&chars, from, end);
        let ghost rest = components(chars@, from as int);
        proof {
            lemma_split(parts, rest, all);
            assert(rest[0] == part@);
        }
        let ghost before = parts;
        proof {
            parts = parts.push(part@);
            reveal_strlit("..");
            assert(".."@ =~= seq!['.', '.']);
            reveal_strlit(".");
            assert("."@ =~= seq!['.']);
            reveal_strlit("");
            assert(part@.len() == 0 <==> part@ =~= ""@);
            assert(parts.drop_last() =~= before);
        }
        if same(part.as_str(), "..") {
            proof {
                assert(all[before.len() as int] == part@) by {
                    assert((parts + rest.skip(1))[before.len() as int] == part@);
                }
            }
            return None;
        }
        proof {
            if climbs(parts) {
                let i = choose|i: int| 0 <= i < parts.len() && #[trigger] parts[i] == seq!['.', '.'];
                assert(i < before.len());
                assert(before[i] == seq!['.', '.']);
            }
        }
        if !same(part.as_str(), "") && !same(part.as_str(), ".") {
            let fresh = out.unicode_len() == 0;
            if !fresh {
                out.push('/');
            }
            let ghost so_far = out@;
            out.append(part.as_str());
            proof {
                if fresh {
                    assert(so_far + part@ =~= part@);
                } else {
                    assert(out@ =~= joined_parts(before) + seq!['/'] + part@);
                }
            }
        }
        if end < chars.len() {
            proof {
                assert(rest.skip(1) =~= components(chars@, end + 1));
            }
            from = end + 1;
        } else {
            proof {
                assert(rest.skip(1) =~= Seq::empty());
                assert(all =~= parts);
            }
            more = false;
        }
    }
    Some(out)
}

/// The bytes of a text that are written: all of them, or at most `data_len`.
pub open spec fn saved_bytes(data: Seq<char>, data_len: i32) -> Seq<u8> {
    let bytes = encode_utf8(data);
    if data_len < 0 || bytes.len() <= data_len {
        bytes
    } else {
        bytes.take(data_len as int)
    }
}

/// A file that a script asked to be written.
#[derive(Debug, Clone, PartialEq, Eq)]
pub struct FileWrite {
    pub root: String,
    pub relative: String,
    pub bytes: Vec<u8>,
}

/// Where a resource's file is: the resource's root, and the path below it.
pub open spec fn file_path(
    all: Map<Seq<char>, RecordModel>,
    name: Seq<char>,
    file_name: Seq<char>,
) -> Option<(Seq<char>, Seq<char>)> {
    if all.contains_key(name) {
        match sanitized(file_name) {
            Some(relative) => Some((all[name].root, relative)),
            None => None,
        }
    } else {
        None
    }
}

fn copy_texts(list: &Vec<String>) -> (copy: Vec<String>)
    ensures
        texts(copy@) == texts(list@),
{
    let mut copy: Vec<String> = Vec::new();
    let mut i: usize = 0;
    while i < list.len()
        invariant
            i <= list@.len(),
            copy@.len() == i,
            forall|j: int| 0 <= j < i ==> (#[trigger] copy@[j])@ == list@[j]@,
        decreases list@.len() - i,
    {
        copy.push(list[i].clone());
        i = i + 1;
    }
    assert(texts(copy@) =~= texts(list@));
    copy
}

/// The resources that the resource natives answer from.
#[derive(Debug)]
pub struct ResourceRegistry {
    resources: TextMap<ResourceRecord>,
}

spec fn record_models(resources: Map<Seq<char>, ResourceRecord>) -> Map<Seq<char>, RecordModel> {
    resources.map_values(|r: ResourceRecord| r.model())
}

impl View for ResourceRegistry {
    type V = Map<Seq<char>, RecordModel>;

    closed spec fn view(&self) -> Map<Seq<char>, RecordModel> {
        record_models(self.resources@)
    }
}

impl ResourceRegistry {
    pub closed spec fn wf(&self) -> bool {
        self.resources.wf()
    }

    pub fn new() -> (registry: Self)
        ensures
            registry.wf(),
            registry@ == Map::<Seq<char>, RecordModel>::empty(),
    {
        let registry = ResourceRegistry { resources: TextMap::new() };
        assert(registry@ =~= Map::<Seq<char>, RecordModel>::empty());
        registry
    }

    pub fn upsert_resource(
        &mut self,
        name: String,
        root: String,
        manifest: ResourceManifest,
        state: ScriptResourceState,
    )
        requires
            old(self).wf(),
        ensures
            final(self).wf(),
            final(self)@ == old(self)@.insert(name@, record_of(root@, manifest, state)),
    {
        let record = ResourceRecord { root, manifest, state };
        self.resources.insert(name, record);
        assert(self@ =~= old(self)@.insert(name@, record.model()));
    }

    /// Change the state of a known resource.
    pub fn set_state(&mut self, name: &str, state: ScriptResourceState)
        requires
            old(self).wf(),
        ensures
            final(self).wf(),
            final(self)@ == if old(self)@.contains_key(name@) {
                old(self)@.insert(name@, RecordModel { state, ..old(self)@[name@] })
            } else {
                old(self)@
            },
    {
        if let Some(record) = self.resources.remove(name) {
            let mut record = record;
            record.state = state;
            self.resources.insert(name.to_owned(), record);
            assert(self@ =~= old(self)@.insert(name@, record.model()));
        } else {
            assert(self@ =~= old(self)@);
        }
    }

    pub fn count(&self) -> (n: usize)
        requires
            self.wf(),
        ensures
            n == self@.len(),
    {
        assert(self@.dom() =~= self.resources@.dom());
        self.resources.len()
    }

    /// Every loaded resource name, ascending, so repeated reads give scripts a stable
    /// order.
    pub fn names(&self) -> (names: Vec<String>)
        requires
            self.wf(),
        ensures
            texts(names@) == names_in_order(self@.dom()),
            lists_names(texts(names@), self@.dom()),
    {
        assert(self@.dom() =~= self.resources@.dom());
        self.resources.names()
    }

    pub fn name_at(&self, index: usize) -> (name: String)
        requires
            self.wf(),
        ensures
            name@ == at_or_empty(names_in_order(self@.dom()), index as int),
            lists_names(names_in_order(self@.dom()), self@.dom()),
    {
        let names = self.names();
        if index < names.len() {
            assert(texts(names@)[index as int] == names@[index as int]@);
            names[index].clone()
        } else {
            let none = String::new();
            assert(none@ =~= Seq::empty());
            none
        }
    }

    pub fn state(&self, name: &str) -> (state: &'static str)
        requires
            self.wf(),
        ensures
            state@ == if self@.contains_key(name@) {
                state_name(self@[name@].state)
            } else {
                "missing"@
            },
    {
        match self.resources.get(name) {
            Some(record) => record.state.as_str(),
            None => ScriptResourceState::Missing.as_str(),
        }
    }

    pub fn path(&self, name: &str) -> (path: String)
        requires
            self.wf(),
        ensures
            path@ == if self@.contains_key(name@) {
                self@[name@].root
            } else {
                Seq::empty()
            },
    {
        match self.resources.get(name) {
            Some(record) => record.root.clone(),
            None => {
                let none = String::new();
                assert(none@ =~= Seq::empty());
                none
            },
        }
    }

    /// How many values a metadata key has, in 32 bits.
    pub fn metadata_count(&self, name: &str, key: &str) -> (n: u32)
        requires
            self.wf(),
        ensures
            n == metadata(self@, name@, key@).len() % 0x1_0000_0000,
    {
        (self.metadata_values(name, key).len() as u64 % 0x1_0000_0000) as u32
    }

    pub fn metadata_value(&self, name: &str, key: &str, index: usize) -> (value: String)
        requires
            self.wf(),
        ensures
            value@ == at_or_empty(metadata(self@, name@, key@), index as int),
    {
        let values = self.metadata_values(name, key);
        if index < values.len() {
            assert(texts(values@)[index as int] == values@[index as int]@);
            values[index].clone()
        } else {
            let none = String::new();
            assert(none@ =~= Seq::empty());
            none
        }
    }

    fn metadata_values(&self, name: &str, key: &str) -> (values: Vec<String>)
        requires
            self.wf(),
        ensures
            texts(values@) == metadata(self@, name@, key@),
    {
        let mut values: Vec<String> = Vec::new();
        assert(texts(values@) =~= Seq::empty());
        if let Some(record) = self.resources.get(name) {
            if same(key, "version") {
                if let Some(version) = &record.manifest.version {
                    values.push(version.clone());
                    assert(texts(values@) =~= seq![version@]);
                }
            } else if same(key, "dependency") {
                return copy_texts(&record.manifest.dependencies);
            } else if same(key, "server_script") {
                return copy_texts(&record.manifest.server_scripts);
            } else if same(key, "client_script") {
                return copy_texts(&record.manifest.client_scripts);
            } else if same(key, "file") {
                return copy_texts(&record.manifest.files);
            }
        }
        values
    }

    /// Where a resource's file is, if the resource is known and the path stays inside
    /// it: the resource's root, and the path below it.
    pub fn resource_file_path(&self, name: &str, file_name: &str) -> (path: Option<
        (String, String),
    >)
        requires
            self.wf(),
        ensures
            match path {
                Some((root, relative)) => file_path(self@, name@, file_name@) == Some(
                    (root@, relative@),
                ),
                None => file_path(self@, name@, file_name@) is None,
            },
    {
        match self.resources.get(name) {
            Some(record) => match sanitize_relative_path(file_name) {
                Some(relative) => Some((record.root.clone(), relative)),
                None => None,
            },
            None => None,
        }
    }

    /// The file that `SaveResourceFile` writes, if it may.
    pub fn save_file(&self, name: &str, file_name: &str, data: &str, data_len: i32) -> (write:
        Option<FileWrite>)
        requires
            self.wf(),
        ensures
            match write {
                Some(w) => file_path(self@, name@, file_name@) == Some((w.root@, w.relative@))
                    && w.bytes@ == saved_bytes(data@, data_len),
                None => file_path(self@, name@, file_name@) is None,
            },
    {
        match self.resource_file_path(name, file_name) {
            Some((root, relative)) => {
                let all = data.as_bytes();
                let bytes = if data_len < 0 || all.len() as u64 <= data_len as u64 {
                    slice_to_vec(all)
                } else {
                    slice_to_vec(slice_subrange(all, 0, data_len as usize))
                };
                assert(bytes@ =~= saved_bytes(data@, data_len));
                Some(FileWrite { root, relative, bytes })
            },
            None => None,
        }
    }
}

// --- laws ---

/// A sanitized path leads nowhere but down: it is not absolute, and no part of it is the
/// parent directory.
pub proof fn sanitized_path_stays_inside(raw: Seq<char>)
    ensures
        sanitized(raw) matches Some(path) ==> (path.len() > 0 ==> path[0] != '/') && !climbs(
            components(path, 0),
        ),
{
    if sanitized(raw) is Some {
        lemma_components(raw, 0);
        lemma_joined_first(components(raw, 0));
        lemma_joined_stays(components(raw, 0));
    }
}

/// A part behind a slash is the last part.
pub(crate) proof fn lemma_part_behind(path: Seq<char>, part: Seq<char>, from: int)
    requires
        0 <= from <= path.len(),
        forall|j: int| 0 <= j < part.len() ==> #[trigger] part[j] != '/',
    ensures
        components(path + seq!['/'] + part, from) == components(path, from).push(part),
    decreases path.len() - from,
{
    let longer = path + seq!['/'] + part;
    let end = position_of(path, '/', from);
    lemma_position(path, '/', from);
    lemma_position(longer, '/', from);
    let longer_end = position_of(longer, '/', from);
    assert(longer[path.len() as int] == '/');
    if end < path.len() {
        assert(longer[end] == '/');
        if longer_end < end {
            assert(path[longer_end] == '/');
        }
        if end < longer_end {
            assert(longer[end] != '/');
        }
        assert(longer.subrange(from, end) =~= path.subrange(from, end));
        lemma_part_behind(path, part, end + 1);
        assert(components(longer, from) =~= components(path, from).push(part));
    } else {
        if longer_end < path.len() {
            assert(path[longer_end] == '/');
        }
        if path.len() < longer_end {
            assert(longer[path.len() as int] != '/');
        }
        assert(longer_end == path.len());
        lemma_part_alone(longer, path.len() as int + 1);
        assert(longer.skip(path.len() as int + 1) =~= part);
        assert(longer.subrange(from, longer_end) =~= path.subrange(from, path.len() as int));
        assert(components(longer, from) =~= components(path, from).push(part));
    }
}

/// What holds no slash is one part.
pub(crate) proof fn lemma_part_alone(path: Seq<char>, from: int)
    requires
        0 <= from <= path.len(),
        forall|j: int| from <= j < path.len() ==> #[trigger] path[j] != '/',
    ensures
        components(path, from) == seq![path.skip(from)],
{
    lemma_position(path, '/', from);
    assert(path.subrange(from, path.len() as int) =~= path.skip(from));
}

proof fn lemma_joined_stays(parts: Seq<Seq<char>>)
    requires
        !climbs(parts),
        forall|i: int, j: int|
            #![trigger parts[i][j]]
            0 <= i < parts.len() && 0 <= j < parts[i].len() ==> parts[i][j] != '/',
    ensures
        !climbs(components(joined_parts(parts), 0)),
    decreases parts.len(),
{
    let joined = joined_parts(parts);
    if parts.len() == 0 {
        lemma_part_alone(joined, 0);
        assert(joined.skip(0).len() != seq!['.', '.'].len());
    } else {
        let shorter = parts.drop_last();
        let last = parts.last();
        assert forall|i: int, j: int|
            #![trigger shorter[i][j]]
            0 <= i < shorter.len() && 0 <= j < shorter[i].len() implies shorter[i][j] != '/' by {
            assert(parts[i][j] == shorter[i][j]);
        }
        assert forall|i: int| 0 <= i < shorter.len() implies #[trigger] shorter[i] != seq![
            '.',
            '.',
        ] by {
            assert(parts[i] == shorter[i]);
        }
        lemma_joined_stays(shorter);
        assert(last == parts[parts.len() - 1]);
        assert forall|j: int| 0 <= j < last.len() implies #[trigger] last[j] != '/' by {
            assert(parts[parts.len() - 1][j] != '/');
        }
        let before = joined_parts(shorter);
        if !idle(last) {
            if before.len() == 0 {
                lemma_part_alone(last, 0);
                assert(last.skip(0) =~= last);
            } else {
                lemma_part_behind(before, last, 0);
                let all = components(before, 0);
                assert forall|i: int| 0 <= i < all.push(last).len() implies #[trigger] all.push(
                    last,
                )[i] != seq!['.', '.'] by {
                    if i < all.len() {
                        assert(all[i] == all.push(last)[i]);
                    }
                }
            }
        }
    }
}

proof fn lemma_components(path: Seq<char>, from: int)
    requires
        0 <= from <= path.len(),
    ensures
        forall|i: int, j: int|
            #![trigger components(path, from)[i][j]]
            0 <= i < components(path, from).len() && 0 <= j < components(path, from)[i].len()
                ==> components(path, from)[i][j] != '/',
    decreases path.len() - from,
{
    lemma_position(path, '/', from);
    let end = position_of(path, '/', from);
    let all = components(path, from);
    if end < path.len() {
        lemma_components(path, end + 1);
        let rest = components(path, end + 1);
        assert forall|i: int, j: int|
            #![trigger all[i][j]]
            0 <= i < all.len() && 0 <= j < all[i].len() implies all[i][j] != '/' by {
            if i == 0 {
                assert(all[0] == path.subrange(from, end));
                assert(all[i][j] == path[from + j]);
            } else {
                assert(all[i] == rest[i - 1]);
                assert(rest[i - 1][j] != '/');
            }
        }
    } else {
        assert forall|i: int, j: int|
            #![trigger all[i][j]]
            0 <= i < all.len() && 0 <= j < all[i].len() implies all[i][j] != '/' by {
            assert(all[i][j] == path[from + j]);
        }
    }
}

proof fn lemma_joined_first(parts: Seq<Seq<char>>)
    requires
        forall|i: int, j: int|
            #![trigger parts[i][j]]
            0 <= i < parts.len() && 0 <= j < parts[i].len() ==> parts[i][j] != '/',
    ensures
        joined_parts(parts).len() > 0 ==> joined_parts(parts)[0] != '/',
    decreases parts.len(),
{
    if parts.len() > 0 {
        let shorter = parts.drop_last();
        assert forall|i: int, j: int|
            #![trigger shorter[i][j]]
            0 <= i < shorter.len() && 0 <= j < shorter[i].len() implies shorter[i][j] != '/' by {
            assert(parts[i][j] == shorter[i][j]);
        }
        lemma_joined_first(shorter);
        if !idle(parts.last()) {
            assert(parts[parts.len() - 1][0] != '/');
        }
    }
}

} // verus!
