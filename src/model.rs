use vstd::prelude::*;
use vstd::string::*;

verus! {

/// The schema revision written into every profile's metadata.
pub const CURRENT_FORMAT_VERSION: u32 = 1;

/// Errors of the profile library.
#[derive(Debug, Clone, PartialEq, Eq)]
pub enum Error {
    /// A value supplied by the caller is not acceptable (an empty name, an
    /// unsupported icon type).
    InputError(String),
    /// The profile's game version is not known to the version provider.
    VersionNotFound(String),
    /// A sidecar file or the profile index could not be decoded or encoded.
    SerializationError(String),
    /// No Java runtime could be found for the launch.
    JavaNotFoundError,
    /// An external process (a hook or the game) exited unsuccessfully.
    ExitError(i32),
}

/// The mod-loading runtime of a profile.
#[derive(Debug, Clone, Copy, PartialEq, Eq, Structural)]
pub enum ModLoader {
    Vanilla,
    Forge,
    Fabric,
}

impl Default for ModLoader {
    fn default() -> (r: ModLoader)
        ensures
            r == ModLoader::Vanilla,
    {
        ModLoader::Vanilla
    }
}

impl ModLoader {
    /// The loader of a profile that names none.
    pub fn default_loader() -> (r: ModLoader)
        ensures
            r == ModLoader::Vanilla,
    {
        ModLoader::Vanilla
    }

    /// The display name of the loader.
    pub fn name(&self) -> (r: &'static str)
        ensures
            r@ == loader_display_name(*self),
    {
        match self {
            ModLoader::Vanilla => "Vanilla",
            ModLoader::Forge => "Forge",
            ModLoader::Fabric => "Fabric",
        }
    }
}

pub open spec fn loader_display_name(l: ModLoader) -> Seq<char> {
    match l {
        ModLoader::Vanilla => "Vanilla"@,
        ModLoader::Forge => "Forge"@,
        ModLoader::Fabric => "Fabric"@,
    }
}

/// A loader version: its identifier, where it is downloaded from, and
/// whether it is a stable release.
#[derive(Debug, Clone)]
pub struct LoaderVersion {
    pub id: String,
    pub url: String,
    pub stable: bool,
}

pub struct LoaderVersionModel {
    pub id: Seq<char>,
    pub url: Seq<char>,
    pub stable: bool,
}

impl View for LoaderVersion {
    type V = LoaderVersionModel;

    open spec fn view(&self) -> LoaderVersionModel {
        LoaderVersionModel { id: self.id@, url: self.url@, stable: self.stable }
    }
}

/// A profile's own Java settings; each part left unset falls back to the
/// global default.
#[derive(Debug, Clone)]
pub struct JavaSettings {
    pub install: Option<String>,
    pub extra_arguments: Option<Vec<String>>,
}

pub struct JavaModel {
    pub install: Option<Seq<char>>,
    pub extra_arguments: Option<Seq<Seq<char>>>,
}

impl View for JavaSettings {
    type V = JavaModel;

    open spec fn view(&self) -> JavaModel {
        JavaModel {
            install: opt_str(self.install),
            extra_arguments: opt_strs(self.extra_arguments),
        }
    }
}

/// Memory bounds of the game process, in megabytes.
#[derive(Debug, Clone, Copy, PartialEq, Eq, Structural)]
pub struct MemorySettings {
    pub minimum: Option<u32>,
    pub maximum: u32,
}

impl MemorySettings {
    /// The global default: no minimum, a maximum of 2048.
    pub fn default_memory() -> (r: MemorySettings)
        ensures
            r.minimum.is_none(),
            r.maximum == 2048,
    {
        MemorySettings { minimum: None, maximum: 2048 }
    }
}

impl Default for MemorySettings {
    fn default() -> (r: MemorySettings)
        ensures
            r == (MemorySettings { minimum: None, maximum: 2048 }),
    {
        MemorySettings::default_memory()
    }
}

/// Width and height of the game window.
#[derive(Debug, Clone, Copy, PartialEq, Eq, Structural)]
pub struct WindowSize(pub u16, pub u16);

impl WindowSize {
    /// The global default: 854 by 480.
    pub fn default_size() -> (r: WindowSize)
        ensures
            r == WindowSize(854, 480),
    {
        WindowSize(854, 480)
    }
}

impl Default for WindowSize {
    fn default() -> (r: WindowSize)
        ensures
            r == WindowSize(854, 480),
    {
        WindowSize::default_size()
    }
}

/// Lifecycle hooks: commands run before launch and after exit, and a
/// command that wraps the Java invocation.
#[derive(Debug, Clone)]
pub struct Hooks {
    pub pre_launch: Vec<String>,
    pub wrapper: Option<String>,
    pub post_exit: Vec<String>,
}

/// The name the hooks type also goes by.
pub type ProfileHooks = Hooks;

pub struct HooksModel {
    pub pre_launch: Seq<Seq<char>>,
    pub wrapper: Option<Seq<char>>,
    pub post_exit: Seq<Seq<char>>,
}

impl View for Hooks {
    type V = HooksModel;

    open spec fn view(&self) -> HooksModel {
        HooksModel {
            pre_launch: strs(self.pre_launch),
            wrapper: opt_str(self.wrapper),
            post_exit: strs(self.post_exit),
        }
    }
}

impl Hooks {
    /// Each list is a set: no command occurs twice in it.
    pub open spec fn wf(&self) -> bool {
        distinct(strs(self.pre_launch)) && distinct(strs(self.post_exit))
    }

    /// The global default: no hooks and no wrapper.
    pub fn default_hooks() -> (r: Hooks)
        ensures
            r@.pre_launch.len() == 0,
            r@.wrapper.is_none(),
            r@.post_exit.len() == 0,
            r.wf(),
    {
        Hooks { pre_launch: Vec::new(), wrapper: None, post_exit: Vec::new() }
    }
}

impl Default for Hooks {
    fn default() -> (r: Hooks)
        ensures
            r@.pre_launch.len() == 0,
            r@.wrapper.is_none(),
            r@.post_exit.len() == 0,
            r.wf(),
    {
        Hooks::default_hooks()
    }
}

/// Descriptive data of a profile.
#[derive(Debug, Clone)]
pub struct ProfileMetadata {
    pub name: String,
    pub icon: Option<String>,
    pub game_version: String,
    pub loader: ModLoader,
    pub loader_version: Option<LoaderVersion>,
    pub format_version: u32,
}

/// The name the metadata type also goes by.
pub type Metadata = ProfileMetadata;

pub struct MetadataModel {
    pub name: Seq<char>,
    pub icon: Option<Seq<char>>,
    pub game_version: Seq<char>,
    pub loader: ModLoader,
    pub loader_version: Option<LoaderVersionModel>,
    pub format_version: u32,
}

impl View for ProfileMetadata {
    type V = MetadataModel;

    open spec fn view(&self) -> MetadataModel {
        MetadataModel {
            name: self.name@,
            icon: opt_str(self.icon),
            game_version: self.game_version@,
            loader: self.loader,
            loader_version: match self.loader_version {
                Some(v) => Some(v@),
                None => None,
            },
            format_version: self.format_version,
        }
    }
}

/// A game instance bound to one directory. `path` is the canonical
/// directory and is never part of the sidecar file.
#[derive(Debug, Clone)]
pub struct Profile {
    pub path: String,
    pub metadata: ProfileMetadata,
    pub java: Option<JavaSettings>,
    pub memory: Option<MemorySettings>,
    pub resolution: Option<WindowSize>,
    pub hooks: Option<Hooks>,
}

/// Everything of a profile but its path.
pub struct SettingsModel {
    pub metadata: MetadataModel,
    pub java: Option<JavaModel>,
    pub memory: Option<MemorySettings>,
    pub resolution: Option<WindowSize>,
    pub hooks: Option<HooksModel>,
}

pub struct ProfileModel {
    pub path: Seq<char>,
    pub body: SettingsModel,
}

impl View for Profile {
    type V = ProfileModel;

    open spec fn view(&self) -> ProfileModel {
        ProfileModel {
            path: self.path@,
            body: SettingsModel {
                metadata: self.metadata@,
                java: match self.java {
                    Some(j) => Some(j@),
                    None => None,
                },
                memory: self.memory,
                resolution: self.resolution,
                hooks: match self.hooks {
                    Some(h) => Some(h@),
                    None => None,
                },
            },
        }
    }
}

pub open spec fn opt_str(o: Option<String>) -> Option<Seq<char>> {
    match o {
        Some(s) => Some(s@),
        None => None,
    }
}

pub open spec fn strs(v: Vec<String>) -> Seq<Seq<char>> {
    v@.map_values(|s: String| s@)
}

pub open spec fn opt_strs(o: Option<Vec<String>>) -> Option<Seq<Seq<char>>> {
    match o {
        Some(v) => Some(strs(v)),
        None => None,
    }
}

/// No string occurs twice.
pub open spec fn distinct(s: Seq<Seq<char>>) -> bool {
    forall|i: int, j: int| 0 <= i < s.len() && 0 <= j < s.len() && i != j ==> s[i] != s[j]
}

/// Whether no string occurs twice in `v`.
pub fn all_distinct(v: &Vec<String>) -> (r: bool)
    ensures
        r == distinct(strs(*v)),
{
    let mut i: usize = 0;
    while i < v.len()
        invariant
            i <= v.len(),
            forall|a: int, b: int| 0 <= a < i && 0 <= b < v.len() && a != b ==> v@[a]@ != v@[b]@,
        decreases v.len() - i,
    {
        let mut j: usize = 0;
        while j < v.len()
            invariant
                i < v.len(),
                j <= v.len(),
                forall|a: int, b: int| 0 <= a < i && 0 <= b < v.len() && a != b ==> v@[a]@ != v@[b]@,
                forall|b: int| 0 <= b < j && b != i ==> v@[i as int]@ != v@[b]@,
            decreases v.len() - j,
        {
            if j != i && str_eq(v[i].as_str(), v[j].as_str()) {
                assert(strs(*v)[i as int] == strs(*v)[j as int]);
                return false;
            }
            j = j + 1;
        }
        i = i + 1;
    }
    true
}

/// True when every character of `s` is white space, so that `s` is empty
/// once trimmed: such a name is refused.
pub open spec fn is_blank(s: Seq<char>) -> bool {
    forall|i: int| 0 <= i < s.len() ==> is_space(#[trigger] s[i])
}

/// The Unicode White_Space characters.
pub open spec fn is_space(c: char) -> bool {
    let u = c as u32;
    (0x9 <= u && u <= 0xd) || u == 0x20 || u == 0x85 || u == 0xa0 || u == 0x1680 || (0x2000 <= u
        && u <= 0x200a) || u == 0x2028 || u == 0x2029 || u == 0x202f || u == 0x205f || u == 0x3000
}

/// Whether `c` is a Unicode White_Space character.
pub fn char_is_space(c: char) -> (r: bool)
    ensures
        r == is_space(c),
{
    let u = c as u32;
    (0x9 <= u && u <= 0xd) || u == 0x20 || u == 0x85 || u == 0xa0 || u == 0x1680 || (0x2000 <= u
        && u <= 0x200a) || u == 0x2028 || u == 0x2029 || u == 0x202f || u == 0x205f || u == 0x3000
}

/// Whether a name is blank, that is empty once surrounding white space is
/// trimmed.
pub fn name_is_blank(name: &str) -> (r: bool)
    ensures
        r == is_blank(name@),
{
    let n = name.unicode_len();
    let mut i: usize = 0;
    while i < n
        invariant
            n == name@.len(),
            i <= n,
            forall|k: int| 0 <= k < i ==> is_space(#[trigger] name@[k]),
        decreases n - i,
    {
        if !char_is_space(name.get_char(i)) {
            return false;
        }
        i = i + 1;
    }
    true
}

impl Profile {
    /// Well-formed: the hooks override, if any, is well-formed.
    pub open spec fn wf(&self) -> bool {
        self.hooks matches Some(h) ==> h.wf()
    }

    /// Whether the profile is well-formed.
    pub fn is_well_formed(&self) -> (r: bool)
        ensures
            r == self.wf(),
    {
        match &self.hooks {
            Some(h) => all_distinct(&h.pre_launch) && all_distinct(&h.post_exit),
            None => true,
        }
    }

    /// A new profile with the given name, game version and canonical
    /// directory, with no overrides. The name is kept as given; it is
    /// refused when it is blank.
    pub fn new(name: String, version: String, path: String) -> (r: Result<Profile, Error>)
        ensures
            is_blank(name@) <==> r is Err,
            r is Err ==> r->Err_0 is InputError,
            r matches Ok(p) ==> {
                &&& p.wf()
                &&& p@.path == path@
                &&& p@.body.metadata.name == name@
                &&& p@.body.metadata.icon.is_none()
                &&& p@.body.metadata.game_version == version@
                &&& p@.body.metadata.loader == ModLoader::Vanilla
                &&& p@.body.metadata.loader_version.is_none()
                &&& p@.body.metadata.format_version == CURRENT_FORMAT_VERSION
                &&& p@.body.java.is_none()
                &&& p@.body.memory.is_none()
                &&& p@.body.resolution.is_none()
                &&& p@.body.hooks.is_none()
            },
    {
        if name_is_blank(name.as_str()) {
            return Err(Error::InputError(String::from_str("Empty name for instance!")));
        }
        Ok(Profile {
            path,
            metadata: ProfileMetadata {
                name,
                icon: None,
                game_version: version,
                loader: ModLoader::Vanilla,
                loader_version: None,
                format_version: CURRENT_FORMAT_VERSION,
            },
            java: None,
            memory: None,
            resolution: None,
            hooks: None,
        })
    }
}

/// Character-wise equality of two strings.
pub fn str_eq(a: &str, b: &str) -> (r: bool)
    ensures
        r == (a@ == b@),
{
    let n = a.unicode_len();
    if n != b.unicode_len() {
        return false;
    }
    let mut i: usize = 0;
    while i < n
        invariant
            n == a@.len() == b@.len(),
            i <= n,
            forall|j: int| 0 <= j < i ==> a@[j] == b@[j],
        decreases n - i,
    {
        if a.get_char(i) != b.get_char(i) {
            return false;
        }
        i = i + 1;
    }
    assert(a@ =~= b@);
    true
}

/// The icon file types a profile accepts, by extension.
pub open spec fn supported_icon(ext: Seq<char>) -> bool {
    ext == "bmp"@ || ext == "gif"@ || ext == "jpeg"@ || ext == "jpg"@ || ext == "jpe"@ || ext
        == "png"@ || ext == "svg"@ || ext == "svgz"@ || ext == "webp"@ || ext == "rgb"@ || ext
        == "mp4"@
}

/// Whether `ext` is an accepted icon extension.
pub fn is_supported_icon(ext: &str) -> (r: bool)
    ensures
        r == supported_icon(ext@),
{
    str_eq(ext, "bmp") || str_eq(ext, "gif") || str_eq(
        ext,
        "jpeg",
    ) || str_eq(ext, "jpg") || str_eq(ext, "jpe")
        || str_eq(ext, "png") || str_eq(ext, "svg")
        || str_eq(ext, "svgz") || str_eq(ext, "webp")
        || str_eq(ext, "rgb") || str_eq(ext, "mp4")
}

/// The name an icon with extension `ext` gets in the profile directory:
/// `icon.<ext>`. Refused, before anything is copied, for an unsupported
/// extension.
pub fn icon_file_name(ext: &str) -> (r: Result<String, Error>)
    ensures
        supported_icon(ext@) <==> r is Ok,
        r matches Ok(n) ==> n@ == "icon."@ + ext@,
        r matches Err(e) ==> e is InputError,
{
    if !is_supported_icon(ext) {
        return Err(Error::InputError(String::from_str("Unsupported image type")));
    }
    let mut n = String::from_str("icon.");
    n.append(ext);
    Ok(n)
}

impl Profile {
    /// Renames the profile.
    pub fn with_name(&mut self, name: String)
        ensures
            final(self)@.path == old(self)@.path,
            final(self)@.body == (SettingsModel {
                metadata: MetadataModel { name: name@, ..old(self)@.body.metadata },
                ..old(self)@.body
            }),
    {
        self.metadata.name = name;
    }

    /// Records the icon copied into the profile directory from a file with
    /// extension `ext`: the icon becomes `./icon.<ext>`. An unsupported
    /// extension is refused and leaves the profile unchanged.
    pub fn with_icon(&mut self, ext: &str) -> (r: Result<(), Error>)
        ensures
            supported_icon(ext@) <==> r is Ok,
            r is Err ==> r->Err_0 is InputError && final(self)@ == old(self)@,
            r is Ok ==> final(self)@.path == old(self)@.path && final(self)@.body == (SettingsModel {
                metadata: MetadataModel { icon: Some("./"@ + "icon."@ + ext@), ..old(self)@.body.metadata },
                ..old(self)@.body
            }),
    {
        let file = icon_file_name(ext)?;
        let mut icon = String::from_str("./");
        icon.append(file.as_str());
        assert(icon@ =~= "./"@ + "icon."@ + ext@);
        self.metadata.icon = Some(icon);
        Ok(())
    }

    /// Sets the game version.
    pub fn with_game_version(&mut self, version: String)
        ensures
            final(self)@.path == old(self)@.path,
            final(self)@.body == (SettingsModel {
                metadata: MetadataModel { game_version: version@, ..old(self)@.body.metadata },
                ..old(self)@.body
            }),
    {
        self.metadata.game_version = version;
    }

    /// Sets the mod loader and its version.
    pub fn with_loader(&mut self, loader: ModLoader, version: Option<LoaderVersion>)
        ensures
            final(self)@.path == old(self)@.path,
            final(self)@.body == (SettingsModel {
                metadata: MetadataModel {
                    loader,
                    loader_version: match version {
                        Some(v) => Some(v@),
                        None => None,
                    },
                    ..old(self)@.body.metadata
                },
                ..old(self)@.body
            }),
    {
        self.metadata.loader = loader;
        self.metadata.loader_version = version;
    }

    /// Sets or clears the Java override.
    pub fn with_java_settings(&mut self, settings: Option<JavaSettings>)
        ensures
            final(self)@.path == old(self)@.path,
            final(self)@.body == (SettingsModel {
                java: match settings {
                    Some(j) => Some(j@),
                    None => None,
                },
                ..old(self)@.body
            }),
    {
        self.java = settings;
    }

    /// Sets or clears the memory override.
    pub fn with_memory(&mut self, settings: Option<MemorySettings>)
        ensures
            final(self)@.path == old(self)@.path,
            final(self)@.body == (SettingsModel { memory: settings, ..old(self)@.body }),
    {
        self.memory = settings;
    }

    /// Sets or clears the window size override.
    pub fn with_resolution(&mut self, resolution: Option<WindowSize>)
        ensures
            final(self)@.path == old(self)@.path,
            final(self)@.body == (SettingsModel { resolution, ..old(self)@.body }),
    {
        self.resolution = resolution;
    }

    /// Sets or clears the hooks override.
    pub fn with_hooks(&mut self, hooks: Option<Hooks>)
        ensures
            final(self).wf() == (hooks matches Some(h) ==> h.wf()),
            final(self)@.path == old(self)@.path,
            final(self)@.body == (SettingsModel {
                hooks: match hooks {
                    Some(h) => Some(h@),
                    None => None,
                },
                ..old(self)@.body
            }),
    {
        self.hooks = hooks;
    }
}

} // verus!
