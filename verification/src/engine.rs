//! Which scripting runtime owns a resource.
//!
//! A resource declares its language by the extension of its server scripts, so selection
//! needs no manifest key. A resource may use both: each script runs in the runtime its
//! own extension picks, so the scripts are grouped by engine and the resource gets one
//! runtime per group.
use crate::error::{ErrorModel, ScriptError};
use crate::text::{ascii_lower, joined3, lowercased, same};
use vstd::prelude::*;
use vstd::string::StringExecFns;

verus! {

/// The scripting engine a resource runs on.
#[derive(Debug, Clone, Copy, PartialEq, Eq, Structural)]
pub enum Engine {
    /// JavaScript.
    Js,
    /// Lua.
    Lua,
}

/// The engines that a build contains.
#[derive(Debug, Clone, Copy)]
pub struct Engines {
    pub js: bool,
    pub lua: bool,
}

/// Whether a build contains an engine.
pub open spec fn has_engine(engines: Engines, engine: Engine) -> bool {
    match engine {
        Engine::Js => engines.js,
        Engine::Lua => engines.lua,
    }
}

/// What stands behind the last dot; the whole text where there is none.
pub open spec fn extension_of(path: Seq<char>) -> Seq<char>
    decreases path.len(),
{
    if path.len() == 0 || path.last() == '.' {
        Seq::empty()
    } else {
        extension_of(path.drop_last()).push(path.last())
    }
}

/// The engine that runs the scripts with an extension.
pub open spec fn engine_of(path: Seq<char>) -> Option<Engine> {
    let extension = ascii_lower(extension_of(path));
    if extension == "js"@ || extension == "mjs"@ || extension == "cjs"@ {
        Some(Engine::Js)
    } else if extension == "lua"@ {
        Some(Engine::Lua)
    } else {
        None
    }
}

fn extension(path: &str) -> (out: String)
    ensures
        out@ == extension_of(path@),
{
    let chars = crate::text::chars_of(path);
    let n: usize = chars.len();
    let mut at: usize = n;
    assert(chars@.take(n as int) =~= chars@);
    assert(chars@.subrange(n as int, n as int) =~= Seq::empty());
    assert(extension_of(chars@) =~= extension_of(chars@.take(at as int)) + chars@.subrange(
        at as int,
        n as int,
    ));
    while at > 0 && chars[at - 1] != '.'
        invariant
            at <= n == chars@.len(),
            extension_of(chars@) == extension_of(chars@.take(at as int)) + chars@.subrange(
                at as int,
                n as int,
            ),
        decreases at,
    {
        assert(chars@.take(at as int).drop_last() =~= chars@.take(at - 1));
        assert(chars@.take(at as int).last() == chars@[at - 1]);
        assert(extension_of(chars@.take(at - 1)).push(chars@[at - 1]) + chars@.subrange(
            at as int,
            n as int,
        ) =~= extension_of(chars@.take(at - 1)) + chars@.subrange(at - 1, n as int));
        at = at - 1;
    }
    assert(extension_of(chars@.take(at as int)) =~= Seq::empty());
    assert(extension_of(chars@) =~= chars@.subrange(at as int, n as int));
    crate::text::string_between(&chars, at, n)
}

impl Engine {
    pub fn label(self) -> (label: &'static str)
        ensures
            label@ == match self {
                Engine::Js => "js"@,
                Engine::Lua => "lua"@,
            },
    {
        match self {
            Engine::Js => "js",
            Engine::Lua => "lua",
        }
    }

    /// Whether a build contains the engine.
    pub fn is_compiled_in(self, engines: &Engines) -> (yes: bool)
        ensures
            yes == has_engine(*engines, self),
    {
        match self {
            Engine::Js => engines.js,
            Engine::Lua => engines.lua,
        }
    }

    /// The bundle that ships this engine, for an error that would otherwise dead-end on
    /// "not compiled in".
    fn bundle(self) -> (bundle: &'static str)
        ensures
            bundle@ == bundle_of(self),
    {
        match self {
            Engine::Js => "js (or full)",
            Engine::Lua => "lua (or full)",
        }
    }

    /// The engine that owns `path`, or `None` for a file no engine claims.
    pub fn of_path(path: &str) -> (engine: Option<Self>)
        ensures
            engine == engine_of(path@),
    {
        let lower = lowercased(extension(path).as_str());
        let s = lower.as_str();
        if same(s, "js") || same(s, "mjs") || same(s, "cjs") {
            Some(Engine::Js)
        } else if same(s, "lua") {
            Some(Engine::Lua)
        } else {
            None
        }
    }
}

pub open spec fn bundle_of(engine: Engine) -> Seq<char> {
    match engine {
        Engine::Js => "js (or full)"@,
        Engine::Lua => "lua (or full)"@,
    }
}

pub open spec fn label_of(engine: Engine) -> Seq<char> {
    match engine {
        Engine::Js => "js"@,
        Engine::Lua => "lua"@,
    }
}

/// The positions of the scripts that an engine runs, in their order.
pub open spec fn scripts_of(paths: Seq<Seq<char>>, engine: Engine) -> Seq<usize>
    decreases paths.len(),
{
    if paths.len() == 0 {
        Seq::empty()
    } else if engine_of(paths.last()) == Some(engine) {
        scripts_of(paths.drop_last(), engine).push((paths.len() - 1) as usize)
    } else {
        scripts_of(paths.drop_last(), engine)
    }
}

/// The first script that no engine runs.
pub open spec fn unclaimed(paths: Seq<Seq<char>>) -> Option<Seq<char>>
    decreases paths.len(),
{
    if paths.len() == 0 {
        None
    } else {
        match unclaimed(paths.drop_last()) {
            Some(path) => Some(path),
            None => if engine_of(paths.last()) is None {
                Some(paths.last())
            } else {
                None
            },
        }
    }
}

pub open spec fn other(engine: Engine) -> Engine {
    match engine {
        Engine::Js => Engine::Lua,
        Engine::Lua => Engine::Js,
    }
}

/// One group per language, in the order in which the languages first appear.
pub open spec fn groups_of(paths: Seq<Seq<char>>) -> Seq<(Engine, Seq<usize>)>
    recommends
        paths.len() > 0,
        unclaimed(paths) is None,
{
    let first = engine_of(paths[0]).unwrap();
    let second = other(first);
    if scripts_of(paths, second).len() == 0 {
        seq![(first, scripts_of(paths, first))]
    } else {
        seq![(first, scripts_of(paths, first)), (second, scripts_of(paths, second))]
    }
}

/// The first engine that the groups need and the build lacks.
pub open spec fn missing_engine(groups: Seq<(Engine, Seq<usize>)>, engines: Engines) -> Option<
    Engine,
> {
    if groups.len() > 0 && !has_engine(engines, groups[0].0) {
        Some(groups[0].0)
    } else if groups.len() > 1 && !has_engine(engines, groups[1].0) {
        Some(groups[1].0)
    } else {
        None
    }
}

pub open spec fn no_runtime_text(path: Seq<char>) -> Seq<char> {
    "server script \""@ + path
        + "\" has no runtime\n  → BASTON runs .js/.mjs/.cjs and .lua server scripts"@
}

pub open spec fn not_in_build_text(engine: Engine) -> Seq<char> {
    "this build has no "@ + label_of(engine) + " runtime\n  → it ships in bundle "@ + bundle_of(
        engine,
    ) + "\n  → run `baston-gateway --modules` to see what this binary contains"@
}

/// How the scripts of a resource are grouped, or why they cannot run.
pub open spec fn grouping(
    resource: Seq<char>,
    paths: Seq<Seq<char>>,
    engines: Engines,
) -> Result<Seq<(Engine, Seq<usize>)>, ErrorModel> {
    match unclaimed(paths) {
        Some(path) => Err(ErrorModel::RuntimeInit { resource, message: no_runtime_text(path) }),
        None => if paths.len() == 0 {
            Err(ErrorModel::RuntimeInit { resource, message: "no server_scripts to run"@ })
        } else {
            match missing_engine(groups_of(paths), engines) {
                Some(engine) => Err(
                    ErrorModel::RuntimeInit { resource, message: not_in_build_text(engine) },
                ),
                None => Ok(groups_of(paths)),
            }
        },
    }
}

/// The models of a list of texts.
pub open spec fn texts(list: Seq<String>) -> Seq<Seq<char>> {
    list.map_values(|s: String| s@)
}

pub open spec fn group_views(groups: Seq<(Engine, Vec<usize>)>) -> Seq<(Engine, Seq<usize>)> {
    groups.map_values(|g: (Engine, Vec<usize>)| (g.0, g.1@))
}

/// Group a resource's server scripts by the engine that runs each one.
///
/// Order is preserved within a group, because `server_scripts` order is what a resource
/// relies on. Refuses rather than guessing: an unrecognised extension, or an engine that
/// the build does not contain. A missing runtime is fatal for the whole resource rather
/// than for its half.
pub fn group_by_engine(resource: &str, script_paths: &Vec<String>, engines: &Engines) -> (groups:
    Result<Vec<(Engine, Vec<usize>)>, ScriptError>)
    ensures
        match groups {
            Ok(g) => grouping(resource@, texts(script_paths@), *engines) == Ok::<_, ErrorModel>(
                group_views(g@),
            ),
            Err(e) => grouping(resource@, texts(script_paths@), *engines) == Err::<
                Seq<(Engine, Seq<usize>)>,
                _,
            >(e@),
        },
{
    let ghost paths = texts(script_paths@);
    let mut js: Vec<usize> = Vec::new();
    let mut lua: Vec<usize> = Vec::new();
    let mut first = Engine::Js;
    let mut i: usize = 0;
    assert(paths.take(0) =~= Seq::empty());
    while i < script_paths.len()
        invariant
            i <= script_paths@.len(),
            paths == texts(script_paths@),
            js@ == scripts_of(paths.take(i as int), Engine::Js),
            lua@ == scripts_of(paths.take(i as int), Engine::Lua),
            unclaimed(paths.take(i as int)) is None,
            i > 0 ==> engine_of(paths[0]) == Some(first),
            js@.len() + lua@.len() == i,
            i > 0 ==> (if first == Engine::Js {
                js@.len() > 0
            } else {
                lua@.len() > 0
            }),
        decreases script_paths@.len() - i,
    {
        let path = script_paths[i].as_str();
        proof {
            assert(paths.take(i + 1).drop_last() =~= paths.take(i as int));
            assert(paths.take(i + 1).last() == path@);
        }
        match Engine::of_path(path) {
            None => {
                let message = joined3(
                    "server script \"",
                    path,
                    "\" has no runtime\n  → BASTON runs .js/.mjs/.cjs and .lua server scripts",
                );
                proof {
                    lemma_unclaimed(paths, i + 1);
                }
                return Err(ScriptError::RuntimeInit { resource: resource.to_owned(), message });
            },
            Some(engine) => {
                if i == 0 {
                    first = engine;
                }
                match engine {
                    Engine::Js => {
                        js.push(i);
                    },
                    Engine::Lua => {
                        lua.push(i);
                    },
                }
            },
        }
        i = i + 1;
    }
    assert(paths.take(i as int) =~= paths);
    if i == 0 {
        return Err(
            ScriptError::RuntimeInit {
                resource: resource.to_owned(),
                message: "no server_scripts to run".to_owned(),
            },
        );
    }
    let (second, own, rest) = match first {
        Engine::Js => (Engine::Lua, js, lua),
        Engine::Lua => (Engine::Js, lua, js),
    };
    let two = rest.len() > 0;
    if !first.is_compiled_in(engines) {
        return Err(not_in_build(resource, first));
    }
    if two && !second.is_compiled_in(engines) {
        return Err(not_in_build(resource, second));
    }
    let mut groups: Vec<(Engine, Vec<usize>)> = Vec::new();
    groups.push((first, own));
    if two {
        groups.push((second, rest));
    }
    assert(group_views(groups@) =~= groups_of(paths));
    Ok(groups)
}

proof fn lemma_unclaimed(paths: Seq<Seq<char>>, i: int)
    requires
        0 <= i <= paths.len(),
        unclaimed(paths.take(i)) is Some,
    ensures
        unclaimed(paths) == unclaimed(paths.take(i)),
    decreases paths.len(),
{
    if i < paths.len() {
        assert(paths.drop_last().take(i) =~= paths.take(i));
        lemma_unclaimed(paths.drop_last(), i);
    } else {
        assert(paths.take(i) =~= paths);
    }
}

fn not_in_build(resource: &str, engine: Engine) -> (error: ScriptError)
    ensures
        error@ == (ErrorModel::RuntimeInit {
            resource: resource@,
            message: not_in_build_text(engine),
        }),
{
    let mut message = joined3(
        "this build has no ",
        engine.label(),
        " runtime\n  → it ships in bundle ",
    );
    message.append(engine.bundle());
    message.append("\n  → run `baston-gateway --modules` to see what this binary contains");
    ScriptError::RuntimeInit { resource: resource.to_owned(), message }
}

/// Every script of a resource that can run is in exactly one group, the one of its own
/// engine.
pub proof fn every_script_has_its_group(paths: Seq<Seq<char>>, engine: Engine, i: int)
    requires
        0 <= i < paths.len() <= usize::MAX,
    ensures
        scripts_of(paths, engine).contains(i as usize) <==> engine_of(paths[i]) == Some(engine),
    decreases paths.len(),
{
    lemma_scripts_below(paths.drop_last(), engine);
    let shorter = scripts_of(paths.drop_last(), engine);
    let all = scripts_of(paths, engine);
    if i < paths.len() - 1 {
        every_script_has_its_group(paths.drop_last(), engine, i);
        if shorter.contains(i as usize) {
            let j = choose|j: int| 0 <= j < shorter.len() && shorter[j] == i as usize;
            assert(all[j] == i as usize);
        }
        if all.contains(i as usize) {
            let j = choose|j: int| 0 <= j < all.len() && all[j] == i as usize;
            assert(shorter[j] == i as usize);
        }
    } else {
        if engine_of(paths[i]) == Some(engine) {
            assert(all[all.len() - 1] == i as usize);
        } else if all.contains(i as usize) {
            let j = choose|j: int| 0 <= j < all.len() && all[j] == i as usize;
            assert(shorter[j] < paths.len() - 1);
        }
    }
}

proof fn lemma_scripts_below(paths: Seq<Seq<char>>, engine: Engine)
    requires
        paths.len() <= usize::MAX,
    ensures
        forall|j: int|
            0 <= j < scripts_of(paths, engine).len() ==> #[trigger] scripts_of(paths, engine)[j]
                < paths.len(),
    decreases paths.len(),
{
    if paths.len() > 0 {
        lemma_scripts_below(paths.drop_last(), engine);
        let shorter = scripts_of(paths.drop_last(), engine);
        let all = scripts_of(paths, engine);
        assert forall|j: int| 0 <= j < all.len() implies #[trigger] all[j] < paths.len() by {
            if j < shorter.len() {
                assert(all[j] == shorter[j]);
            }
        }
    }
}

} // verus!
