use vstd::prelude::*;
use crate::model::{opt_str, strs, Error, Hooks, MemorySettings, Profile, WindowSize};

verus! {

/// Process-wide defaults that apply where a profile sets no override.
#[derive(Debug, Clone)]
pub struct Settings {
    pub java_8_path: Option<String>,
    pub java_17_path: Option<String>,
    pub custom_java_args: Vec<String>,
    pub memory: MemorySettings,
    pub game_resolution: WindowSize,
    pub hooks: Hooks,
}

/// The lowest Java major version that needs the newer runtime tier.
pub const JAVA_17_THRESHOLD: u32 = 16;

pub open spec fn spec_effective_memory(p: Profile, s: Settings) -> MemorySettings {
    match p.memory {
        Some(m) => m,
        None => s.memory,
    }
}

pub open spec fn spec_effective_resolution(p: Profile, s: Settings) -> WindowSize {
    match p.resolution {
        Some(r) => r,
        None => s.game_resolution,
    }
}

pub open spec fn spec_effective_java_args(p: Profile, s: Settings) -> Seq<Seq<char>> {
    match p.java {
        Some(j) => match j.extra_arguments {
            Some(a) => strs(a),
            None => strs(s.custom_java_args),
        },
        None => strs(s.custom_java_args),
    }
}

pub open spec fn spec_effective_hooks(p: Profile, s: Settings) -> Hooks {
    match p.hooks {
        Some(h) => h,
        None => s.hooks,
    }
}

/// The Java install a launch uses: the profile's own, else the global path
/// of the tier that the required major version selects.
pub open spec fn spec_java_path(p: Profile, s: Settings, required: Option<u32>) -> Option<Seq<char>> {
    match p.java {
        Some(j) if j.install.is_some() => opt_str(j.install),
        _ => if required matches Some(v) && v >= JAVA_17_THRESHOLD {
            opt_str(s.java_17_path)
        } else {
            opt_str(s.java_8_path)
        },
    }
}

/// The memory bounds of a launch: the profile's whole override if it has
/// one, else the global default; the two are never mixed.
pub fn effective_memory(p: &Profile, s: &Settings) -> (r: MemorySettings)
    ensures
        r == spec_effective_memory(*p, *s),
{
    match p.memory {
        Some(m) => m,
        None => s.memory,
    }
}

/// The window size of a launch.
pub fn effective_resolution(p: &Profile, s: &Settings) -> (r: WindowSize)
    ensures
        r == spec_effective_resolution(*p, *s),
{
    match p.resolution {
        Some(r) => r,
        None => s.game_resolution,
    }
}

/// The extra Java arguments of a launch.
pub fn effective_java_args<'a>(p: &'a Profile, s: &'a Settings) -> (r: &'a Vec<String>)
    ensures
        strs(*r) == spec_effective_java_args(*p, *s),
{
    match &p.java {
        Some(j) => match &j.extra_arguments {
            Some(a) => a,
            None => &s.custom_java_args,
        },
        None => &s.custom_java_args,
    }
}

/// The hooks of a launch: the profile's whole hook set if it has one.
pub fn effective_hooks<'a>(p: &'a Profile, s: &'a Settings) -> (r: &'a Hooks)
    ensures
        *r == spec_effective_hooks(*p, *s),
{
    match &p.hooks {
        Some(h) => h,
        None => &s.hooks,
    }
}

/// The Java install of a launch, given the major version that the game
/// version declares, if it declares one. `None` when the chosen source
/// holds no path.
pub fn java_path<'a>(p: &'a Profile, s: &'a Settings, required: Option<u32>) -> (r: Option<
    &'a String,
>)
    ensures
        match r {
            Some(x) => spec_java_path(*p, *s, required) == Some(x@),
            None => spec_java_path(*p, *s, required).is_none(),
        },
{
    if let Some(j) = &p.java {
        if let Some(install) = &j.install {
            return Some(install);
        }
    }
    let newer = match required {
        Some(v) => v >= JAVA_17_THRESHOLD,
        None => false,
    };
    let tier = if newer {
        &s.java_17_path
    } else {
        &s.java_8_path
    };
    match tier {
        Some(x) => Some(x),
        None => None,
    }
}

/// The position of the first known game version named `wanted`; an
/// unknown name is refused with `VersionNotFound`.
pub fn find_version(known: &Vec<String>, wanted: &str) -> (r: Result<usize, Error>)
    ensures
        r is Ok <==> exists|i: int| 0 <= i < known.len() && (#[trigger] known@[i])@ == wanted@,
        r matches Ok(i) ==> i < known.len() && known@[i as int]@ == wanted@ && forall|j: int|
            0 <= j < i ==> (#[trigger] known@[j])@ != wanted@,
        r matches Err(e) ==> e is VersionNotFound,
{
    let mut i: usize = 0;
    while i < known.len()
        invariant
            i <= known.len(),
            forall|j: int| 0 <= j < i ==> (#[trigger] known@[j])@ != wanted@,
        decreases known.len() - i,
    {
        if crate::model::str_eq(known[i].as_str(), wanted) {
            return Ok(i);
        }
        i = i + 1;
    }
    Err(Error::VersionNotFound(wanted.to_string()))
}

/// A profile's memory override replaces the global default as a whole,
/// and its absence leaves the global default in force.
pub proof fn law_memory_precedence(p: Profile, s: Settings)
    ensures
        p.memory is None ==> spec_effective_memory(p, s) == s.memory,
        p.memory matches Some(m) ==> spec_effective_memory(p, s) == m,
{
}

/// Without a profile install, a game that requires Java 16 or later runs
/// on the global 17-tier path, and any other on the global 8-tier path.
pub proof fn law_java_tier(p: Profile, s: Settings, required: Option<u32>)
    requires
        p.java is None || p.java->Some_0.install is None,
    ensures
        (required matches Some(v) && v >= 16) ==> spec_java_path(p, s, required) == opt_str(
            s.java_17_path,
        ),
        !(required matches Some(v) && v >= 16) ==> spec_java_path(p, s, required) == opt_str(
            s.java_8_path,
        ),
{
}

} // verus!
