//! What a resource says of itself, and which of its files a script can reach.
use crate::resource_registry::{
    at_or_empty, climbs, components, file_path, joined_parts, lemma_part_alone, lemma_part_behind,
    metadata, sanitized, saved_bytes, state_name, RecordModel, ScriptResourceState,
};
use vstd::prelude::*;
use vstd::utf8::encode_utf8;

verus! {

/// A manifest answers to five keys, each with the entries it was written with; to any other
/// key, and for a resource that is not known, it has no entries.
pub proof fn a_manifest_answers_to_its_keys(
    all: Map<Seq<char>, RecordModel>,
    name: Seq<char>,
    key: Seq<char>,
)
    ensures
        all.contains_key(name) ==> {
            let record = all[name];
            &&& metadata(all, name, "dependency"@) == record.dependencies
            &&& metadata(all, name, "server_script"@) == record.server_scripts
            &&& metadata(all, name, "client_script"@) == record.client_scripts
            &&& metadata(all, name, "file"@) == record.files
            &&& record.version is Some ==> metadata(all, name, "version"@) == seq![
                record.version->0,
            ]
            &&& record.version is None ==> metadata(all, name, "version"@).len() == 0
            &&& key.len() > 13 || key.len() < 4 ==> metadata(all, name, key).len() == 0
        },
        !all.contains_key(name) ==> metadata(all, name, key).len() == 0,
{
    reveal_strlit("version");
    reveal_strlit("dependency");
    reveal_strlit("server_script");
    reveal_strlit("client_script");
    reveal_strlit("file");
    assert("server_script"@[0] == 's' && "client_script"@[0] == 'c');
    assert("version"@.len() == 7 && "dependency"@.len() == 10 && "server_script"@.len() == 13
        && "client_script"@.len() == 13 && "file"@.len() == 4);
}

/// The entries of a key are counted from zero, and behind the last one there is nothing.
pub proof fn entries_are_counted_from_zero(list: Seq<Seq<char>>, i: int)
    ensures
        0 <= i < list.len() ==> at_or_empty(list, i) == list[i],
        i < 0 || i >= list.len() ==> at_or_empty(list, i).len() == 0,
{
}

/// A state is told by its word.
pub proof fn states_have_words()
    ensures
        state_name(ScriptResourceState::Uninitialized) == "uninitialized"@,
        state_name(ScriptResourceState::Starting) == "starting"@,
        state_name(ScriptResourceState::Started) == "started"@,
        state_name(ScriptResourceState::Stopped) == "stopped"@,
        state_name(ScriptResourceState::Missing) == "missing"@,
        state_name(ScriptResourceState::Unknown) == "unknown"@,
{
}

/// A path is read part by part. A part that is empty or a dot changes nothing; two dots, and
/// whatever follows them, are refused; any other part is added behind a slash.
pub proof fn a_path_is_read_part_by_part(raw: Seq<char>, part: Seq<char>)
    requires
        raw.len() > 0,
        forall|j: int| 0 <= j < part.len() ==> #[trigger] part[j] != '/',
    ensures
        ({
            let longer = raw + seq!['/'] + part;
            &&& sanitized(raw) is None ==> sanitized(longer) is None
            &&& part == seq!['.', '.'] ==> sanitized(longer) is None
            &&& part.len() == 0 || part == seq!['.'] ==> sanitized(longer) == sanitized(raw)
            &&& sanitized(raw) is Some && part.len() > 0 && part != seq!['.'] && part != seq![
                '.',
                '.',
            ] ==> sanitized(longer) == Some(
                if sanitized(raw)->0.len() == 0 {
                    part
                } else {
                    sanitized(raw)->0 + seq!['/'] + part
                },
            )
        }),
{
    let longer = raw + seq!['/'] + part;
    let parts = components(raw, 0);
    lemma_part_behind(raw, part, 0);
    assert(components(longer, 0) == parts.push(part));
    assert(longer[0] == raw[0]);
    let all = parts.push(part);
    assert(all.drop_last() =~= parts);
    assert(all.last() == part);
    if climbs(parts) {
        let i = choose|i: int| 0 <= i < parts.len() && #[trigger] parts[i] == seq!['.', '.'];
        assert(all[i] == parts[i]);
    }
    if climbs(all) {
        let i = choose|i: int| 0 <= i < all.len() && #[trigger] all[i] == seq!['.', '.'];
        if i < parts.len() {
            assert(parts[i] == all[i]);
        }
    }
    if part == seq!['.', '.'] {
        assert(all[parts.len() as int] == part);
    }
}

/// A single part is itself, unless it is a dot or two; and a path from the root is refused.
pub proof fn a_single_part_is_itself(part: Seq<char>, rest: Seq<char>)
    requires
        part.len() > 0,
        forall|j: int| 0 <= j < part.len() ==> #[trigger] part[j] != '/',
    ensures
        part != seq!['.'] && part != seq!['.', '.'] ==> sanitized(part) == Some(part),
        part == seq!['.'] ==> sanitized(part) == Some(Seq::<char>::empty()),
        part == seq!['.', '.'] ==> sanitized(part) is None,
        sanitized(seq!['/'] + rest) is None,
{
    lemma_part_alone(part, 0);
    assert(part.skip(0) =~= part);
    let parts = components(part, 0);
    assert(parts == seq![part]);
    assert(parts[0] == part);
    assert(parts.drop_last() =~= Seq::empty());
    reveal_with_fuel(joined_parts, 2);
    assert((seq!['/'] + rest)[0] == '/');
}

/// A file is reached below the root of its resource, and nowhere for a resource that is not
/// known or a path that leaves it.
pub proof fn a_file_is_reached_below_its_root(
    all: Map<Seq<char>, RecordModel>,
    name: Seq<char>,
    file: Seq<char>,
)
    ensures
        !all.contains_key(name) ==> file_path(all, name, file) is None,
        sanitized(file) is None ==> file_path(all, name, file) is None,
        all.contains_key(name) && sanitized(file) is Some ==> file_path(all, name, file) == Some(
            (all[name].root, sanitized(file)->0),
        ),
{
}

/// A file is saved with as many bytes as were asked for, from the first on, and with all of
/// them where fewer are there or a negative number was asked for.
pub proof fn a_file_is_saved_up_to_its_length(data: Seq<char>, n: i32)
    ensures
        n < 0 ==> saved_bytes(data, n) == encode_utf8(data),
        n >= 0 && encode_utf8(data).len() <= n ==> saved_bytes(data, n) == encode_utf8(data),
        n >= 0 && encode_utf8(data).len() > n ==> saved_bytes(data, n).len() == n && saved_bytes(
            data,
            n,
        ) == encode_utf8(data).subrange(0, n as int),
{
    if n >= 0 && encode_utf8(data).len() > n {
        assert(encode_utf8(data).take(n as int) =~= encode_utf8(data).subrange(0, n as int));
    }
}

} // verus!
