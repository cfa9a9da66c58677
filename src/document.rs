use vstd::prelude::*;
use vstd::string::*;
use crate::model::{
    all_distinct, distinct, strs, Error, Hooks, HooksModel, JavaModel, JavaSettings, LoaderVersion, LoaderVersionModel,
    MemorySettings, MetadataModel, ModLoader, Profile, ProfileMetadata, SettingsModel, WindowSize,
};
use crate::model::str_eq;

verus! {

/// A structured-text value, the form in which a profile is written to its
/// sidecar file. An object keeps its keys in order; a lookup takes the
/// first entry with the key.
#[derive(Debug)]
pub enum Json {
    Null,
    Bool(bool),
    Number(u64),
    Str(String),
    Array(Vec<Json>),
    Object(Vec<(String, Json)>),
}

/// The value of the first entry named `key`.
pub open spec fn field(fs: Seq<(String, Json)>, key: Seq<char>) -> Option<Json>
    decreases fs.len(),
{
    if fs.len() == 0 {
        None
    } else if fs[0].0@ == key {
        Some(fs[0].1)
    } else {
        field(fs.drop_first(), key)
    }
}

/// The value under `key`, where an explicit null counts as absent.
pub open spec fn present(fs: Seq<(String, Json)>, key: Seq<char>) -> Option<Json> {
    match field(fs, key) {
        Some(Json::Null) => None,
        o => o,
    }
}

pub open spec fn parse_str(j: Json) -> Option<Seq<char>> {
    match j {
        Json::Str(s) => Some(s@),
        _ => None,
    }
}

pub open spec fn parse_u32(j: Json) -> Option<u32> {
    match j {
        Json::Number(n) => if n <= u32::MAX {
            Some(n as u32)
        } else {
            None
        },
        _ => None,
    }
}

pub open spec fn parse_u16(j: Json) -> Option<u16> {
    match j {
        Json::Number(n) => if n <= u16::MAX {
            Some(n as u16)
        } else {
            None
        },
        _ => None,
    }
}

pub open spec fn all_str(v: Seq<Json>) -> bool {
    forall|i: int| 0 <= i < v.len() ==> #[trigger] v[i] is Str
}

pub open spec fn parse_strs(j: Json) -> Option<Seq<Seq<char>>> {
    match j {
        Json::Array(v) => if all_str(v@) {
            Some(v@.map_values(|x: Json| x->Str_0@))
        } else {
            None
        },
        _ => None,
    }
}

/// A required string entry: `None` when absent or not a string.
pub open spec fn req_str(fs: Seq<(String, Json)>, key: Seq<char>) -> Option<Seq<char>> {
    match field(fs, key) {
        Some(j) => parse_str(j),
        None => None,
    }
}

/// An optional string entry: `Some(None)` when absent, `None` when malformed.
pub open spec fn opt_str_field(fs: Seq<(String, Json)>, key: Seq<char>) -> Option<Option<Seq<char>>> {
    match present(fs, key) {
        None => Some(None),
        Some(j) => match parse_str(j) {
            Some(s) => Some(Some(s)),
            None => None,
        },
    }
}

pub open spec fn opt_strs_field(fs: Seq<(String, Json)>, key: Seq<char>) -> Option<Option<Seq<Seq<char>>>> {
    match present(fs, key) {
        None => Some(None),
        Some(j) => match parse_strs(j) {
            Some(s) => Some(Some(s)),
            None => None,
        },
    }
}

/// A list of strings that defaults to empty when absent.
pub open spec fn strs_or_empty(fs: Seq<(String, Json)>, key: Seq<char>) -> Option<Seq<Seq<char>>> {
    match present(fs, key) {
        None => Some(Seq::empty()),
        Some(j) => parse_strs(j),
    }
}

pub open spec fn loader_name(l: ModLoader) -> Seq<char> {
    match l {
        ModLoader::Vanilla => "vanilla"@,
        ModLoader::Forge => "forge"@,
        ModLoader::Fabric => "fabric"@,
    }
}

pub open spec fn parse_loader(fs: Seq<(String, Json)>) -> Option<ModLoader> {
    match present(fs, "loader"@) {
        None => Some(ModLoader::Vanilla),
        Some(j) => match parse_str(j) {
            Some(s) => if s == "vanilla"@ {
                Some(ModLoader::Vanilla)
            } else if s == "forge"@ {
                Some(ModLoader::Forge)
            } else if s == "fabric"@ {
                Some(ModLoader::Fabric)
            } else {
                None
            },
            None => None,
        },
    }
}

pub open spec fn parse_loader_version(j: Json) -> Option<LoaderVersionModel> {
    match j {
        Json::Object(fs) => match (req_str(fs@, "id"@), req_str(fs@, "url"@), field(fs@, "stable"@)) {
            (Some(id), Some(url), Some(Json::Bool(stable))) => Some(
                LoaderVersionModel { id, url, stable },
            ),
            _ => None,
        },
        _ => None,
    }
}

pub open spec fn parse_metadata(j: Json) -> Option<MetadataModel> {
    match j {
        Json::Object(fs) => {
            let fs = fs@;
            let lv = match present(fs, "loader_version"@) {
                None => Some(None),
                Some(v) => match parse_loader_version(v) {
                    Some(m) => Some(Some(m)),
                    None => None,
                },
            };
            let fv = match field(fs, "format_version"@) {
                Some(v) => parse_u32(v),
                None => None,
            };
            match (req_str(fs, "name"@), opt_str_field(fs, "icon"@), req_str(fs, "game_version"@),
                parse_loader(fs), lv, fv) {
                (Some(name), Some(icon), Some(game_version), Some(loader), Some(loader_version), Some(
                    format_version,
                )) => Some(
                    MetadataModel { name, icon, game_version, loader, loader_version, format_version },
                ),
                _ => None,
            }
        },
        _ => None,
    }
}

pub open spec fn parse_java(j: Json) -> Option<JavaModel> {
    match j {
        Json::Object(fs) => match (opt_str_field(fs@, "install"@), opt_strs_field(fs@, "extra_arguments"@)) {
            (Some(install), Some(extra_arguments)) => Some(JavaModel { install, extra_arguments }),
            _ => None,
        },
        _ => None,
    }
}

pub open spec fn parse_memory(j: Json) -> Option<MemorySettings> {
    match j {
        Json::Object(fs) => {
            let min = match present(fs@, "minimum"@) {
                None => Some(None),
                Some(v) => match parse_u32(v) {
                    Some(n) => Some(Some(n)),
                    None => None,
                },
            };
            let max = match field(fs@, "maximum"@) {
                Some(v) => parse_u32(v),
                None => None,
            };
            match (min, max) {
                (Some(minimum), Some(maximum)) => Some(MemorySettings { minimum, maximum }),
                _ => None,
            }
        },
        _ => None,
    }
}

pub open spec fn parse_resolution(j: Json) -> Option<WindowSize> {
    match j {
        Json::Array(v) => if v@.len() == 2 {
            match (parse_u16(v@[0]), parse_u16(v@[1])) {
                (Some(w), Some(h)) => Some(WindowSize(w, h)),
                _ => None,
            }
        } else {
            None
        },
        _ => None,
    }
}

pub open spec fn parse_hooks(j: Json) -> Option<HooksModel> {
    match j {
        Json::Object(fs) => match (strs_or_empty(fs@, "pre_launch"@), opt_str_field(fs@, "wrapper"@),
            strs_or_empty(fs@, "post_exit"@)) {
            (Some(pre_launch), Some(wrapper), Some(post_exit)) => if distinct(pre_launch) && distinct(
                post_exit,
            ) {
                Some(HooksModel { pre_launch, wrapper, post_exit })
            } else {
                None
            },
            _ => None,
        },
        _ => None,
    }
}

/// An optional section: `Some(None)` when absent, `None` when malformed.
pub open spec fn section<T>(fs: Seq<(String, Json)>, key: Seq<char>, parse: spec_fn(Json) -> Option<T>) -> Option<Option<T>> {
    match present(fs, key) {
        None => Some(None),
        Some(j) => match parse(j) {
            Some(m) => Some(Some(m)),
            None => None,
        },
    }
}

/// What a sidecar document describes, or `None` when it is malformed.
pub open spec fn parse_document(j: Json) -> Option<SettingsModel> {
    match j {
        Json::Object(fs) => {
            let fs = fs@;
            let md = match field(fs, "metadata"@) {
                Some(m) => parse_metadata(m),
                None => None,
            };
            match (md, section(fs, "java"@, |x| parse_java(x)), section(fs, "memory"@, |x| parse_memory(x)),
                section(fs, "resolution"@, |x| parse_resolution(x)), section(fs, "hooks"@, |x| parse_hooks(x))) {
                (Some(metadata), Some(java), Some(memory), Some(resolution), Some(hooks)) => Some(
                    SettingsModel { metadata, java, memory, resolution, hooks },
                ),
                _ => None,
            }
        },
        _ => None,
    }
}

/// The first entry named `key`, if any.
pub fn get_field<'a>(fs: &'a Vec<(String, Json)>, key: &str) -> (r: Option<&'a Json>)
    ensures
        match r {
            Some(j) => field(fs@, key@) == Some(*j),
            None => field(fs@, key@).is_none(),
        },
{
    let mut i: usize = 0;
    assert(fs@.subrange(0, fs.len() as int) =~= fs@);
    while i < fs.len()
        invariant
            i <= fs.len(),
            field(fs@, key@) == field(fs@.subrange(i as int, fs.len() as int), key@),
        decreases fs.len() - i,
    {
        let ghost rest = fs@.subrange(i as int, fs.len() as int);
        assert(rest.drop_first() =~= fs@.subrange(i + 1, fs.len() as int));
        if str_eq(fs[i].0.as_str(), key) {
            return Some(&fs[i].1);
        }
        i = i + 1;
    }
    None
}

fn get_present<'a>(fs: &'a Vec<(String, Json)>, key: &str) -> (r: Option<&'a Json>)
    ensures
        match r {
            Some(j) => present(fs@, key@) == Some(*j),
            None => present(fs@, key@).is_none(),
        },
{
    match get_field(fs, key) {
        Some(Json::Null) => None,
        o => o,
    }
}

fn take_str(j: &Json) -> (r: Option<String>)
    ensures
        match r {
            Some(s) => parse_str(*j) == Some(s@),
            None => parse_str(*j).is_none(),
        },
{
    match j {
        Json::Str(s) => Some(s.clone()),
        _ => None,
    }
}

fn take_u32(j: &Json) -> (r: Option<u32>)
    ensures
        r == parse_u32(*j),
{
    match j {
        Json::Number(n) => if *n <= u32::MAX as u64 {
            Some(*n as u32)
        } else {
            None
        },
        _ => None,
    }
}

fn take_u16(j: &Json) -> (r: Option<u16>)
    ensures
        r == parse_u16(*j),
{
    match j {
        Json::Number(n) => if *n <= u16::MAX as u64 {
            Some(*n as u16)
        } else {
            None
        },
        _ => None,
    }
}

fn take_strs(j: &Json) -> (r: Option<Vec<String>>)
    ensures
        match r {
            Some(o) => parse_strs(*j) == Some(strs(o)),
            None => parse_strs(*j).is_none(),
        },
{
    match j {
        Json::Array(v) => {
            let mut out: Vec<String> = Vec::new();
            let mut i: usize = 0;
            while i < v.len()
                invariant
                    i <= v.len(),
                    out.len() == i,
                    *j == Json::Array(*v),
                    forall|k: int| 0 <= k < i ==> (#[trigger] v@[k]) is Str,
                    forall|k: int| 0 <= k < i ==> (#[trigger] out@[k])@ == v@[k]->Str_0@,
                decreases v.len() - i,
            {
                let item = &v[i];
                assert(*item == v@[i as int]);
                match item {
                    Json::Str(s) => {
                        let c = s.clone();
                        out.push(c);
                    },
                    _ => {
                        assert(!(v@[i as int] is Str));
                        assert(!all_str(v@));
                        assert(parse_strs(*j).is_none());
                        return None;
                    },
                }
                i = i + 1;
            }
            assert(all_str(v@));
            assert(strs(out) =~= v@.map_values(|x: Json| x->Str_0@));
            Some(out)
        },
        _ => None,
    }
}

fn req_str_exec(fs: &Vec<(String, Json)>, key: &str) -> (r: Option<String>)
    ensures
        match r {
            Some(s) => req_str(fs@, key@) == Some(s@),
            None => req_str(fs@, key@).is_none(),
        },
{
    match get_field(fs, key) {
        Some(j) => take_str(j),
        None => None,
    }
}

fn opt_str_exec(fs: &Vec<(String, Json)>, key: &str) -> (r: Option<Option<String>>)
    ensures
        match r {
            Some(o) => opt_str_field(fs@, key@) == Some(crate::model::opt_str(o)),
            None => opt_str_field(fs@, key@).is_none(),
        },
{
    match get_present(fs, key) {
        None => Some(None),
        Some(j) => match take_str(j) {
            Some(s) => Some(Some(s)),
            None => None,
        },
    }
}

fn strs_or_empty_exec(fs: &Vec<(String, Json)>, key: &str) -> (r: Option<Vec<String>>)
    ensures
        match r {
            Some(v) => strs_or_empty(fs@, key@) == Some(strs(v)),
            None => strs_or_empty(fs@, key@).is_none(),
        },
{
    match get_present(fs, key) {
        None => {
            let v: Vec<String> = Vec::new();
            assert(strs(v) =~= Seq::<Seq<char>>::empty());
            Some(v)
        },
        Some(j) => take_strs(j),
    }
}

fn take_loader(fs: &Vec<(String, Json)>) -> (r: Option<ModLoader>)
    ensures
        r == parse_loader(fs@),
{
    match get_present(fs, "loader") {
        None => Some(ModLoader::Vanilla),
        Some(j) => match j {
            Json::Str(s) => if str_eq(s.as_str(), "vanilla") {
                Some(ModLoader::Vanilla)
            } else if str_eq(s.as_str(), "forge") {
                Some(ModLoader::Forge)
            } else if str_eq(s.as_str(), "fabric") {
                Some(ModLoader::Fabric)
            } else {
                None
            },
            _ => None,
        },
    }
}

fn take_loader_version(j: &Json) -> (r: Option<LoaderVersion>)
    ensures
        match r {
            Some(v) => parse_loader_version(*j) == Some(v@),
            None => parse_loader_version(*j).is_none(),
        },
{
    match j {
        Json::Object(fs) => {
            let id = req_str_exec(fs, "id");
            let url = req_str_exec(fs, "url");
            let stable = get_field(fs, "stable");
            match (id, url, stable) {
                (Some(id), Some(url), Some(Json::Bool(stable))) => Some(
                    LoaderVersion { id, url, stable: *stable },
                ),
                _ => None,
            }
        },
        _ => None,
    }
}

fn take_metadata(j: &Json) -> (r: Option<ProfileMetadata>)
    ensures
        match r {
            Some(m) => parse_metadata(*j) == Some(m@),
            None => parse_metadata(*j).is_none(),
        },
{
    match j {
        Json::Object(fs) => {
            let lv = match get_present(fs, "loader_version") {
                None => Some(None),
                Some(v) => match take_loader_version(v) {
                    Some(m) => Some(Some(m)),
                    None => None,
                },
            };
            let fv = match get_field(fs, "format_version") {
                Some(v) => take_u32(v),
                None => None,
            };
            let name = req_str_exec(fs, "name");
            let icon = opt_str_exec(fs, "icon");
            let game_version = req_str_exec(fs, "game_version");
            let loader = take_loader(fs);
            match (name, icon, game_version, loader, lv, fv) {
                (Some(name), Some(icon), Some(game_version), Some(loader), Some(loader_version), Some(
                    format_version,
                )) => Some(
                    ProfileMetadata { name, icon, game_version, loader, loader_version, format_version },
                ),
                _ => None,
            }
        },
        _ => None,
    }
}

fn take_java(j: &Json) -> (r: Option<JavaSettings>)
    ensures
        match r {
            Some(m) => parse_java(*j) == Some(m@),
            None => parse_java(*j).is_none(),
        },
{
    match j {
        Json::Object(fs) => {
            let install = opt_str_exec(fs, "install");
            let extra = match get_present(fs, "extra_arguments") {
                None => Some(None),
                Some(v) => match take_strs(v) {
                    Some(a) => Some(Some(a)),
                    None => None,
                },
            };
            match (install, extra) {
                (Some(install), Some(extra_arguments)) => Some(JavaSettings { install, extra_arguments }),
                _ => None,
            }
        },
        _ => None,
    }
}

fn take_memory(j: &Json) -> (r: Option<MemorySettings>)
    ensures
        r == parse_memory(*j),
{
    match j {
        Json::Object(fs) => {
            let min = match get_present(fs, "minimum") {
                None => Some(None),
                Some(v) => match take_u32(v) {
                    Some(n) => Some(Some(n)),
                    None => None,
                },
            };
            let max = match get_field(fs, "maximum") {
                Some(v) => take_u32(v),
                None => None,
            };
            match (min, max) {
                (Some(minimum), Some(maximum)) => Some(MemorySettings { minimum, maximum }),
                _ => None,
            }
        },
        _ => None,
    }
}

fn take_resolution(j: &Json) -> (r: Option<WindowSize>)
    ensures
        r == parse_resolution(*j),
{
    match j {
        Json::Array(v) => if v.len() == 2 {
            match (take_u16(&v[0]), take_u16(&v[1])) {
                (Some(w), Some(h)) => Some(WindowSize(w, h)),
                _ => None,
            }
        } else {
            None
        },
        _ => None,
    }
}

fn take_hooks(j: &Json) -> (r: Option<Hooks>)
    ensures
        match r {
            Some(m) => parse_hooks(*j) == Some(m@) && m.wf(),
            None => parse_hooks(*j).is_none(),
        },
{
    match j {
        Json::Object(fs) => {
            let pre = strs_or_empty_exec(fs, "pre_launch");
            let wrapper = opt_str_exec(fs, "wrapper");
            let post = strs_or_empty_exec(fs, "post_exit");
            match (pre, wrapper, post) {
                (Some(pre_launch), Some(wrapper), Some(post_exit)) => if all_distinct(&pre_launch)
                    && all_distinct(&post_exit) {
                    Some(Hooks { pre_launch, wrapper, post_exit })
                } else {
                    None
                },
                _ => None,
            }
        },
        _ => None,
    }
}

/// Reads a profile from its sidecar document; `path` is the directory the
/// document was read from and becomes the profile's path. Keys this
/// format does not know are ignored.
pub fn parse_profile(doc: &Json, path: String) -> (r: Result<Profile, Error>)
    ensures
        r is Ok <==> parse_document(*doc).is_some(),
        r matches Ok(p) ==> p@.path == path@ && Some(p@.body) == parse_document(*doc) && p.wf(),
        r matches Err(e) ==> e is SerializationError,
{
    let bad = Error::SerializationError(String::from_str("malformed profile document"));
    match doc {
        Json::Object(fs) => {
            let metadata = match get_field(fs, "metadata") {
                Some(m) => take_metadata(m),
                None => None,
            };
            let metadata = match metadata {
                Some(m) => m,
                None => {
                    return Err(bad);
                },
            };
            let java = match get_present(fs, "java") {
                None => None,
                Some(v) => match take_java(v) {
                    Some(x) => Some(x),
                    None => {
                        return Err(bad);
                    },
                },
            };
            let memory = match get_present(fs, "memory") {
                None => None,
                Some(v) => match take_memory(v) {
                    Some(x) => Some(x),
                    None => {
                        return Err(bad);
                    },
                },
            };
            let resolution = match get_present(fs, "resolution") {
                None => None,
                Some(v) => match take_resolution(v) {
                    Some(x) => Some(x),
                    None => {
                        return Err(bad);
                    },
                },
            };
            let hooks = match get_present(fs, "hooks") {
                None => None,
                Some(v) => match take_hooks(v) {
                    Some(x) => Some(x),
                    None => {
                        return Err(bad);
                    },
                },
            };
            Ok(Profile { path, metadata, java, memory, resolution, hooks })
        },
        _ => Err(bad),
    }
}

proof fn lemma_field_push(fs: Seq<(String, Json)>, e: (String, Json))
    ensures
        forall|key: Seq<char>| #[trigger] field(fs.push(e), key) == if field(fs, key).is_some() {
            field(fs, key)
        } else if e.0@ == key {
            Some(e.1)
        } else {
            None
        },
    decreases fs.len(),
{
    assert forall|key: Seq<char>| #[trigger] field(fs.push(e), key) == if field(fs, key).is_some() {
        field(fs, key)
    } else if e.0@ == key {
        Some(e.1)
    } else {
        None
    } by {
        lemma_field_push_one(fs, e, key);
    }
}

proof fn lemma_field_push_one(fs: Seq<(String, Json)>, e: (String, Json), key: Seq<char>)
    ensures
        field(fs.push(e), key) == if field(fs, key).is_some() {
            field(fs, key)
        } else if e.0@ == key {
            Some(e.1)
        } else {
            None
        },
    decreases fs.len(),
{
    let g = fs.push(e);
    assert(g.len() > 0);
    if fs.len() > 0 {
        assert(g.drop_first() =~= fs.drop_first().push(e));
        assert(g[0] == fs[0]);
        lemma_field_push_one(fs.drop_first(), e, key);
        if fs[0].0@ == key {
            assert(field(g, key) == Some(fs[0].1));
            assert(field(fs, key) == Some(fs[0].1));
        } else {
            assert(field(g, key) == field(g.drop_first(), key));
            assert(field(fs, key) == field(fs.drop_first(), key));
        }
    } else {
        assert(g.drop_first() =~= Seq::<(String, Json)>::empty());
        assert(g[0] == e);
        assert(field(fs, key) is None);
        if e.0@ != key {
            assert(field(g, key) == field(g.drop_first(), key));
        }
    }
}

/// The lengths of the keys of the document, and the characters that tell
/// apart two keys of one length in one object.
proof fn lemma_keys()
    ensures
        "name"@.len() == 4,
        "icon"@.len() == 4,
        "game_version"@.len() == 12,
        "loader"@.len() == 6,
        "loader_version"@.len() == 14,
        "format_version"@.len() == 14,
        "vanilla"@.len() == 7,
        "forge"@.len() == 5,
        "fabric"@.len() == 6,
        "install"@.len() == 7,
        "extra_arguments"@.len() == 15,
        "minimum"@.len() == 7,
        "maximum"@.len() == 7,
        "metadata"@.len() == 8,
        "java"@.len() == 4,
        "memory"@.len() == 6,
        "resolution"@.len() == 10,
        "hooks"@.len() == 5,
        "pre_launch"@.len() == 10,
        "wrapper"@.len() == 7,
        "post_exit"@.len() == 9,
        "id"@.len() == 2,
        "url"@.len() == 3,
        "stable"@.len() == 6,
        "name"@[0] == 'n' && "icon"@[0] == 'i',
        "loader_version"@[0] == 'l' && "format_version"@[0] == 'f',
        "minimum"@[1] == 'i' && "maximum"@[1] == 'a',
{
    reveal_strlit("name");
    reveal_strlit("icon");
    reveal_strlit("game_version");
    reveal_strlit("loader");
    reveal_strlit("loader_version");
    reveal_strlit("format_version");
    reveal_strlit("vanilla");
    reveal_strlit("forge");
    reveal_strlit("fabric");
    reveal_strlit("install");
    reveal_strlit("extra_arguments");
    reveal_strlit("minimum");
    reveal_strlit("maximum");
    reveal_strlit("metadata");
    reveal_strlit("java");
    reveal_strlit("memory");
    reveal_strlit("resolution");
    reveal_strlit("hooks");
    reveal_strlit("pre_launch");
    reveal_strlit("wrapper");
    reveal_strlit("post_exit");
    reveal_strlit("id");
    reveal_strlit("url");
    reveal_strlit("stable");
}

/// The keys of an object's entries, in order.
pub open spec fn keys(fs: Seq<(String, Json)>) -> Seq<Seq<char>> {
    fs.map_values(|e: (String, Json)| e.0@)
}

/// `seq![k]` when `b` holds, else nothing.
pub open spec fn key_if(b: bool, k: Seq<char>) -> Seq<Seq<char>> {
    if b {
        seq![k]
    } else {
        Seq::empty()
    }
}

/// Appends the entry `key: v` to an object under construction.
fn put(fs: &mut Vec<(String, Json)>, key: &str, v: Json)
    ensures
        keys(final(fs)@) == keys(old(fs)@).push(key@),
        final(fs)@.len() == old(fs)@.len() + 1,
        final(fs)@.last().0@ == key@,
        final(fs)@.last().1 == v,
        forall|k: Seq<char>| #[trigger] field(final(fs)@, k) == if field(old(fs)@, k).is_some() {
            field(old(fs)@, k)
        } else if key@ == k {
            Some(v)
        } else {
            None
        },
{
    let e = (String::from_str(key), v);
    let ghost before = fs@;
    proof {
        lemma_field_push(before, e);
    }
    fs.push(e);
    assert(keys(fs@) =~= keys(before).push(key@));
}

fn strs_json(v: &Vec<String>) -> (r: Json)
    ensures
        parse_strs(r) == Some(strs(*v)),
        r is Array,
{
    let mut out: Vec<Json> = Vec::new();
    let mut i: usize = 0;
    while i < v.len()
        invariant
            i <= v.len(),
            out.len() == i,
            forall|k: int| 0 <= k < i ==> (#[trigger] out@[k]) is Str,
            forall|k: int| 0 <= k < i ==> (#[trigger] out@[k])->Str_0@ == v@[k]@,
        decreases v.len() - i,
    {
        out.push(Json::Str(v[i].clone()));
        i = i + 1;
    }
    assert(all_str(out@));
    assert(out@.map_values(|x: Json| x->Str_0@) =~= strs(*v));
    Json::Array(out)
}

fn str_json(s: &String) -> (r: Json)
    ensures
        parse_str(r) == Some(s@),
        r !is Null,
{
    Json::Str(s.clone())
}

fn loader_json(l: ModLoader) -> (r: Json)
    ensures
        r matches Json::Str(s) && s@ == loader_name(l),
{
    match l {
        ModLoader::Vanilla => Json::Str(String::from_str("vanilla")),
        ModLoader::Forge => Json::Str(String::from_str("forge")),
        ModLoader::Fabric => Json::Str(String::from_str("fabric")),
    }
}

fn render_loader_version(v: &LoaderVersion) -> (r: Json)
    ensures
        r matches Json::Object(fs) && keys(fs@) == seq!["id"@, "url"@, "stable"@],
        parse_loader_version(r) == Some(v@),
        r !is Null,
{
    let mut fs: Vec<(String, Json)> = Vec::new();
    proof {
        lemma_keys();
    }
    put(&mut fs, "id", str_json(&v.id));
    put(&mut fs, "url", str_json(&v.url));
    put(&mut fs, "stable", Json::Bool(v.stable));
    assert(keys(fs@) =~= seq!["id"@, "url"@, "stable"@]);
    Json::Object(fs)
}

/// The metadata object; absent optional parts get no key.
pub fn render_metadata(m: &ProfileMetadata) -> (r: Json)
    ensures
        r matches Json::Object(fs) && keys(fs@) == metadata_keys(*m),
        parse_metadata(r) == Some(m@),
        r matches Json::Object(fs) && (m.icon is None ==> field(fs@, "icon"@) is None) && (
        m.loader_version is None ==> field(fs@, "loader_version"@) is None),
{
    let mut fs: Vec<(String, Json)> = Vec::new();
    proof {
        lemma_keys();
    }
    put(&mut fs, "name", str_json(&m.name));
    if let Some(icon) = &m.icon {
        put(&mut fs, "icon", str_json(icon));
    }
    put(&mut fs, "game_version", str_json(&m.game_version));
    put(&mut fs, "loader", loader_json(m.loader));
    if let Some(v) = &m.loader_version {
        put(&mut fs, "loader_version", render_loader_version(v));
    }
    put(&mut fs, "format_version", Json::Number(m.format_version as u64));
    assert(keys(fs@) =~= seq!["name"@] + key_if(m.icon is Some, "icon"@) + seq!["game_version"@, "loader"@]
        + key_if(m.loader_version is Some, "loader_version"@) + seq!["format_version"@]);
    Json::Object(fs)
}

fn render_java(j: &JavaSettings) -> (r: Json)
    ensures
        r matches Json::Object(fs) && keys(fs@) == key_if(j.install is Some, "install"@) + key_if(
            j.extra_arguments is Some,
            "extra_arguments"@,
        ),
        parse_java(r) == Some(j@),
        r matches Json::Object(fs) && (j.install is None ==> field(fs@, "install"@) is None) && (
        j.extra_arguments is None ==> field(fs@, "extra_arguments"@) is None),
{
    let mut fs: Vec<(String, Json)> = Vec::new();
    proof {
        lemma_keys();
    }
    if let Some(i) = &j.install {
        put(&mut fs, "install", str_json(i));
    }
    if let Some(a) = &j.extra_arguments {
        put(&mut fs, "extra_arguments", strs_json(a));
    }
    assert(keys(fs@) =~= key_if(j.install is Some, "install"@) + key_if(
        j.extra_arguments is Some,
        "extra_arguments"@,
    ));
    Json::Object(fs)
}

fn render_memory(m: MemorySettings) -> (r: Json)
    ensures
        r matches Json::Object(fs) && keys(fs@) == key_if(m.minimum is Some, "minimum"@) + seq![
            "maximum"@,
        ],
        parse_memory(r) == Some(m),
        r matches Json::Object(fs) && (m.minimum is None ==> field(fs@, "minimum"@) is None),
{
    let mut fs: Vec<(String, Json)> = Vec::new();
    proof {
        lemma_keys();
    }
    if let Some(n) = m.minimum {
        put(&mut fs, "minimum", Json::Number(n as u64));
    }
    put(&mut fs, "maximum", Json::Number(m.maximum as u64));
    assert(keys(fs@) =~= key_if(m.minimum is Some, "minimum"@) + seq!["maximum"@]);
    Json::Object(fs)
}

fn render_resolution(w: WindowSize) -> (r: Json)
    ensures
        parse_resolution(r) == Some(w),
        r !is Null,
{
    let v: Vec<Json> = vec![Json::Number(w.0 as u64), Json::Number(w.1 as u64)];
    Json::Array(v)
}

fn render_hooks(h: &Hooks) -> (r: Json)
    ensures
        r matches Json::Object(fs) && keys(fs@) == key_if(h.pre_launch@.len() > 0, "pre_launch"@)
            + key_if(h.wrapper is Some, "wrapper"@) + key_if(h.post_exit@.len() > 0, "post_exit"@),
        h.wf() ==> parse_hooks(r) == Some(h@),
        r matches Json::Object(fs) && (h.pre_launch@.len() == 0 ==> field(fs@, "pre_launch"@) is None)
            && (h.wrapper is None ==> field(fs@, "wrapper"@) is None) && (h.post_exit@.len() == 0
            ==> field(fs@, "post_exit"@) is None),
{
    let mut fs: Vec<(String, Json)> = Vec::new();
    proof {
        lemma_keys();
    }
    if h.pre_launch.len() > 0 {
        put(&mut fs, "pre_launch", strs_json(&h.pre_launch));
    }
    if let Some(w) = &h.wrapper {
        put(&mut fs, "wrapper", str_json(w));
    }
    if h.post_exit.len() > 0 {
        put(&mut fs, "post_exit", strs_json(&h.post_exit));
    }
    assert(keys(fs@) =~= key_if(h.pre_launch@.len() > 0, "pre_launch"@) + key_if(h.wrapper is Some, "wrapper"@)
        + key_if(h.post_exit@.len() > 0, "post_exit"@));
    proof {
        assert(h.pre_launch@.len() == 0 ==> strs(h.pre_launch) =~= Seq::<Seq<char>>::empty());
        assert(h.post_exit@.len() == 0 ==> strs(h.post_exit) =~= Seq::<Seq<char>>::empty());
    }
    Json::Object(fs)
}

/// Whether the document `r` of profile `p` has no key for any optional
/// field that `p` leaves unset, at the top level and inside each section.
pub open spec fn omits_unset(p: Profile, r: Json) -> bool {
    r matches Json::Object(fs) && {
        &&& p.java is None ==> field(fs@, "java"@) is None
        &&& p.memory is None ==> field(fs@, "memory"@) is None
        &&& p.resolution is None ==> field(fs@, "resolution"@) is None
        &&& p.hooks is None ==> field(fs@, "hooks"@) is None
        &&& field(fs@, "metadata"@) matches Some(Json::Object(m)) && (p.metadata.icon is None
            ==> field(m@, "icon"@) is None) && (p.metadata.loader_version is None ==> field(
            m@,
            "loader_version"@,
        ) is None)
        &&& p.java matches Some(j) ==> (field(fs@, "java"@) matches Some(Json::Object(m)) && (
        j.install is None ==> field(m@, "install"@) is None) && (j.extra_arguments is None
            ==> field(m@, "extra_arguments"@) is None))
        &&& p.memory matches Some(x) ==> (field(fs@, "memory"@) matches Some(Json::Object(m)) && (
        x.minimum is None ==> field(m@, "minimum"@) is None))
        &&& p.hooks matches Some(h) ==> (field(fs@, "hooks"@) matches Some(Json::Object(m)) && (
        h.pre_launch@.len() == 0 ==> field(m@, "pre_launch"@) is None) && (h.wrapper is None
            ==> field(m@, "wrapper"@) is None) && (h.post_exit@.len() == 0 ==> field(
            m@,
            "post_exit"@,
        ) is None))
    }
}

/// The keys of a metadata object written for `m`.
pub open spec fn metadata_keys(m: ProfileMetadata) -> Seq<Seq<char>> {
    seq!["name"@] + key_if(m.icon is Some, "icon"@) + seq!["game_version"@, "loader"@] + key_if(
        m.loader_version is Some,
        "loader_version"@,
    ) + seq!["format_version"@]
}

/// Whether `j` is an object with exactly the keys `ks`, in that order.
pub open spec fn has_keys(j: Option<Json>, ks: Seq<Seq<char>>) -> bool {
    j matches Some(Json::Object(fs)) && keys(fs@) == ks
}

/// The exact shape of the document of `p`: the keys of the object and of
/// each section, nothing more. An empty hooks override is an empty object.
pub open spec fn exact_shape(p: Profile, r: Json) -> bool {
    r matches Json::Object(fs) && {
        &&& keys(fs@) == seq!["metadata"@] + key_if(p.java is Some, "java"@) + key_if(
            p.memory is Some,
            "memory"@,
        ) + key_if(p.resolution is Some, "resolution"@) + key_if(p.hooks is Some, "hooks"@)
        &&& has_keys(field(fs@, "metadata"@), metadata_keys(p.metadata))
        &&& p.java matches Some(j) ==> has_keys(
            field(fs@, "java"@),
            key_if(j.install is Some, "install"@) + key_if(j.extra_arguments is Some, "extra_arguments"@),
        )
        &&& p.memory matches Some(m) ==> has_keys(
            field(fs@, "memory"@),
            key_if(m.minimum is Some, "minimum"@) + seq!["maximum"@],
        )
        &&& p.hooks matches Some(h) ==> has_keys(
            field(fs@, "hooks"@),
            key_if(h.pre_launch@.len() > 0, "pre_launch"@) + key_if(h.wrapper is Some, "wrapper"@)
                + key_if(h.post_exit@.len() > 0, "post_exit"@),
        )
    }
}

/// The sidecar document of a profile. Its path is not part of it, and an
/// optional field that is not set gets no key at all.
pub fn render_profile(p: &Profile) -> (r: Json)
    ensures
        p.wf() ==> parse_document(r) == Some(p@.body),
        omits_unset(*p, r),
        exact_shape(*p, r),
{
    let mut fs: Vec<(String, Json)> = Vec::new();
    proof {
        lemma_keys();
    }
    put(&mut fs, "metadata", render_metadata(&p.metadata));
    if let Some(j) = &p.java {
        put(&mut fs, "java", render_java(j));
    }
    if let Some(m) = p.memory {
        put(&mut fs, "memory", render_memory(m));
    }
    if let Some(w) = p.resolution {
        put(&mut fs, "resolution", render_resolution(w));
    }
    if let Some(h) = &p.hooks {
        put(&mut fs, "hooks", render_hooks(h));
    }
    assert(keys(fs@) =~= seq!["metadata"@] + key_if(p.java is Some, "java"@) + key_if(
        p.memory is Some,
        "memory"@,
    ) + key_if(p.resolution is Some, "resolution"@) + key_if(p.hooks is Some, "hooks"@));
    Json::Object(fs)
}

/// A metadata object without a `loader` key reads as the vanilla loader.
pub proof fn law_default_loader(j: Json)
    requires
        j matches Json::Object(fs) && field(fs@, "loader"@) is None,
        parse_metadata(j) is Some,
    ensures
        parse_metadata(j)->Some_0.loader == ModLoader::Vanilla,
{
}

} // verus!
