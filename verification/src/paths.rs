//! Where the program keeps its data, configuration and state.

use crate::text::{begins_with, chars_of, has_prefix, joined};
use vstd::prelude::*;
use vstd::string::*;

verus! {

pub const APPLICATION_NAME: &'static str = "local-api-relay";

pub const DEFAULT_PORT: u16 = 8787;

/// How a system writes paths and where it wants them.
#[derive(Debug, Clone, Copy, PartialEq, Eq, Structural)]
pub enum Platform {
    Unix,
    Windows,
}

/// The directories of the program.
#[derive(Debug, Clone)]
pub struct AppPaths {
    pub platform: Platform,
    pub data_dir: String,
    pub config_dir: String,
    pub state_dir: String,
}

/// The settings of the service.
#[derive(Debug, Clone, Copy, PartialEq, Eq, Structural)]
pub struct ServiceSettings {
    pub port: u16,
}

/// Whether a character parts the names in a path.
pub open spec fn parts_names(platform: Platform, c: char) -> bool {
    c == '/' || (platform == Platform::Windows && c == '\\')
}

/// The path of `name`, which is relative, below `base`.
pub open spec fn below(platform: Platform, base: Seq<char>, name: Seq<char>) -> Seq<char> {
    if base.len() == 0 || parts_names(platform, base.last()) {
        base + name
    } else {
        base + (match platform {
            Platform::Unix => "/"@,
            Platform::Windows => "\\"@,
        }) + name
    }
}

/// The path of `name`, which is relative, below `base`.
pub fn join(platform: Platform, base: &str, name: &str) -> (r: String)
    ensures
        r@ == below(platform, base@, name@),
{
    let chars = chars_of(base);
    let count: usize = chars.len();
    if count == 0 {
        return joined(base, name);
    }
    let last = chars[count - 1];
    if last == '/' || (platform == Platform::Windows && last == '\\') {
        return joined(base, name);
    }
    let separator = match platform {
        Platform::Unix => "/",
        Platform::Windows => "\\",
    };
    joined(joined(base, separator).as_str(), name)
}

/// A base directory where the XDG variables say it: the value of its variable,
/// which must be absolute, or else a directory below the home directory.
pub open spec fn base_directory(
    variable: Seq<char>,
    value: Option<Seq<char>>,
    home: Option<Seq<char>>,
    fallback: Seq<char>,
) -> Result<Seq<char>, Seq<char>> {
    match value {
        Some(path) => if begins_with(path, "/"@) {
            Ok(path)
        } else {
            Err(variable + " must be an absolute path"@)
        },
        None => match home {
            Some(directory) => Ok(below(Platform::Unix, directory, fallback)),
            None => Err("HOME is required when XDG directories are unset"@),
        },
    }
}

/// The characters of an optional text.
pub open spec fn optional(text: Option<&str>) -> Option<Seq<char>> {
    match text {
        Some(t) => Some(t@),
        None => None,
    }
}

/// A base directory where the XDG variables say it.
pub fn xdg_path(
    variable: &str,
    value: Option<&str>,
    home: Option<&str>,
    fallback_relative_to_home: &str,
) -> (r: Result<String, String>)
    ensures
        match base_directory(
            variable@,
            optional(value),
            optional(home),
            fallback_relative_to_home@,
        ) {
            Ok(path) => r is Ok && r->Ok_0@ == path,
            Err(message) => r is Err && r->Err_0@ == message,
        },
{
    match value {
        Some(path) => if has_prefix(path, "/") {
            Ok(path.to_owned())
        } else {
            Err(joined(variable, " must be an absolute path"))
        },
        None => match home {
            Some(directory) => Ok(
                join(Platform::Unix, directory, fallback_relative_to_home),
            ),
            None => Err("HOME is required when XDG directories are unset".to_owned()),
        },
    }
}

/// A base directory on Windows: the value of its variable.
pub open spec fn profile_directory(variable: Seq<char>, value: Option<Seq<char>>) -> Result<
    Seq<char>,
    Seq<char>,
> {
    match value {
        Some(path) => Ok(path),
        None => Err(variable + " is required on Windows"@),
    }
}

/// A base directory on Windows.
pub fn profile_path(variable: &str, value: Option<&str>) -> (r: Result<String, String>)
    ensures
        match profile_directory(variable@, optional(value)) {
            Ok(path) => r is Ok && r->Ok_0@ == path,
            Err(message) => r is Err && r->Err_0@ == message,
        },
{
    match value {
        Some(path) => Ok(path.to_owned()),
        None => Err(joined(variable, " is required on Windows")),
    }
}

/// The system, and the variables that the directories are found by on it.
#[derive(Debug)]
pub struct BaseVariables {
    pub platform: Platform,
    pub data_home: Option<String>,
    pub config_home: Option<String>,
    pub state_home: Option<String>,
    pub home: Option<String>,
    pub local_app_data: Option<String>,
    pub app_data: Option<String>,
}

/// The characters of an optional text.
pub open spec fn optional_text(text: Option<String>) -> Option<Seq<char>> {
    match text {
        Some(t) => Some(t@),
        None => None,
    }
}

/// An optional text as a slice.
fn borrowed(text: &Option<String>) -> (r: Option<&str>)
    ensures
        optional(r) == optional_text(*text),
{
    match text {
        Some(t) => Some(t.as_str()),
        None => None,
    }
}

/// The base directories of data, configuration and state: by the XDG variables
/// on Unix; on Windows data and state lie in the local part of the user's
/// profile and the configuration in the roaming part. The first that cannot be
/// found is the error.
pub open spec fn base_directories(variables: BaseVariables) -> Result<
    (Seq<char>, Seq<char>, Seq<char>),
    Seq<char>,
> {
    let home = optional_text(variables.home);
    let data = match variables.platform {
        Platform::Unix => base_directory(
            "XDG_DATA_HOME"@,
            optional_text(variables.data_home),
            home,
            ".local/share"@,
        ),
        Platform::Windows => profile_directory(
            "LOCALAPPDATA"@,
            optional_text(variables.local_app_data),
        ),
    };
    let config = match variables.platform {
        Platform::Unix => base_directory(
            "XDG_CONFIG_HOME"@,
            optional_text(variables.config_home),
            home,
            ".config"@,
        ),
        Platform::Windows => profile_directory("APPDATA"@, optional_text(variables.app_data)),
    };
    let state = match variables.platform {
        Platform::Unix => base_directory(
            "XDG_STATE_HOME"@,
            optional_text(variables.state_home),
            home,
            ".local/state"@,
        ),
        Platform::Windows => data,
    };
    match (data, config, state) {
        (Err(message), _, _) => Err(message),
        (Ok(_), Err(message), _) => Err(message),
        (Ok(_), Ok(_), Err(message)) => Err(message),
        (Ok(d), Ok(c), Ok(s)) => Ok((d, c, s)),
    }
}

/// The base directories of data, configuration and state.
fn find_base_directories(variables: &BaseVariables) -> (r: Result<
    (String, String, String),
    String,
>)
    ensures
        match base_directories(*variables) {
            Ok((d, c, s)) => r is Ok && r->Ok_0.0@ == d && r->Ok_0.1@ == c && r->Ok_0.2@ == s,
            Err(message) => r is Err && r->Err_0@ == message,
        },
{
    let home = borrowed(&variables.home);
    let data = match variables.platform {
        Platform::Unix => xdg_path(
            "XDG_DATA_HOME",
            borrowed(&variables.data_home),
            home,
            ".local/share",
        ),
        Platform::Windows => profile_path("LOCALAPPDATA", borrowed(&variables.local_app_data)),
    };
    let data = match data {
        Ok(path) => path,
        Err(message) => {
            return Err(message);
        },
    };
    let config = match variables.platform {
        Platform::Unix => xdg_path(
            "XDG_CONFIG_HOME",
            borrowed(&variables.config_home),
            home,
            ".config",
        ),
        Platform::Windows => profile_path("APPDATA", borrowed(&variables.app_data)),
    };
    let config = match config {
        Ok(path) => path,
        Err(message) => {
            return Err(message);
        },
    };
    let state = match variables.platform {
        Platform::Unix => xdg_path(
            "XDG_STATE_HOME",
            borrowed(&variables.state_home),
            home,
            ".local/state",
        ),
        Platform::Windows => profile_path("LOCALAPPDATA", borrowed(&variables.local_app_data)),
    };
    match state {
        Ok(path) => Ok((data, config, path)),
        Err(message) => Err(message),
    }
}

/// Whether `r` is the directories of the program, each below its base directory.
pub open spec fn paths_found(r: Result<AppPaths, String>, variables: BaseVariables) -> bool {
    match base_directories(variables) {
        Ok((d, c, s)) => {
            &&& r is Ok
            &&& r->Ok_0.platform == variables.platform
            &&& r->Ok_0.data_dir@ == below(variables.platform, d, "local-api-relay"@)
            &&& r->Ok_0.config_dir@ == below(variables.platform, c, "local-api-relay"@)
            &&& r->Ok_0.state_dir@ == below(variables.platform, s, "local-api-relay"@)
        },
        Err(message) => r is Err && r->Err_0@ == message,
    }
}

/// The file of the database.
pub open spec fn database_file(paths: AppPaths) -> Seq<char> {
    below(paths.platform, paths.data_dir@, "relay.sqlite3"@)
}

/// The directory of the backups.
pub open spec fn backup_directory(paths: AppPaths) -> Seq<char> {
    below(paths.platform, paths.data_dir@, "backups"@)
}

/// The file of the service's settings.
pub open spec fn settings_file(paths: AppPaths) -> Seq<char> {
    below(paths.platform, paths.config_dir@, "service.json"@)
}

/// The directory of the logs.
pub open spec fn log_directory(paths: AppPaths) -> Seq<char> {
    below(paths.platform, paths.state_dir@, "logs"@)
}

impl AppPaths {
    /// The directories of the program, each below its base directory.
    pub fn discover(variables: &BaseVariables) -> (r: Result<Self, String>)
        ensures
            paths_found(r, *variables),
    {
        let platform = variables.platform;
        match find_base_directories(variables) {
            Ok((data, config, state)) => Ok(
                AppPaths {
                    platform,
                    data_dir: join(platform, data.as_str(), APPLICATION_NAME),
                    config_dir: join(platform, config.as_str(), APPLICATION_NAME),
                    state_dir: join(platform, state.as_str(), APPLICATION_NAME),
                },
            ),
            Err(message) => Err(message),
        }
    }

    /// The file of the database.
    pub fn database_path(&self) -> (r: String)
        ensures
            r@ == database_file(*self),
    {
        join(self.platform, self.data_dir.as_str(), "relay.sqlite3")
    }

    /// The directory of the backups.
    pub fn backup_dir(&self) -> (r: String)
        ensures
            r@ == backup_directory(*self),
    {
        join(self.platform, self.data_dir.as_str(), "backups")
    }

    /// The file of the service's settings.
    pub fn settings_path(&self) -> (r: String)
        ensures
            r@ == settings_file(*self),
    {
        join(self.platform, self.config_dir.as_str(), "service.json")
    }

    /// The directory of the logs.
    pub fn log_dir(&self) -> (r: String)
        ensures
            r@ == log_directory(*self),
    {
        join(self.platform, self.state_dir.as_str(), "logs")
    }

    /// The directories that are made before anything is kept in them, in
    /// order.
    pub fn prepare(&self) -> (r: Vec<String>)
        ensures
            r@ == directories_made(*self),
    {
        let mut out: Vec<String> = Vec::new();
        out.push(self.data_dir.clone());
        out.push(self.config_dir.clone());
        out.push(self.state_dir.clone());
        proof {
            assert(out@ =~= seq![self.data_dir, self.config_dir, self.state_dir]);
        }
        out
    }
}

/// Why a port cannot be listened on.
pub open spec fn port_refusal(port: u16) -> Option<Seq<char>> {
    if port == 0 {
        Some("port must be between 1 and 65535"@)
    } else {
        None
    }
}

/// The directories that are made before anything is kept in them, in order.
pub open spec fn directories_made(paths: AppPaths) -> Seq<String> {
    seq![paths.data_dir, paths.config_dir, paths.state_dir]
}

/// Accepts a port that can be listened on.
pub fn validate_port(port: u16) -> (r: Result<(), &'static str>)
    ensures
        r is Ok <==> port_refusal(port) is None,
        r matches Err(message) ==> port_refusal(port) == Some(message@),
{
    if port == 0 {
        Err("port must be between 1 and 65535")
    } else {
        Ok(())
    }
}

/// Whether `r` is the settings in force.
pub open spec fn settings_taken(
    r: Result<ServiceSettings, &'static str>,
    stored: Option<ServiceSettings>,
) -> bool {
    match stored {
        None => r == Ok::<ServiceSettings, &'static str>(ServiceSettings { port: 8787 }),
        Some(settings) => if settings.port == 0 {
            r is Err && r->Err_0@ == "port must be between 1 and 65535"@
        } else {
            r == Ok::<ServiceSettings, &'static str>(settings)
        },
    }
}

/// The settings in force: those that were read, where their port can be
/// listened on, and the default ones where there are none.
pub fn settings_in_use(stored: Option<ServiceSettings>) -> (r: Result<
    ServiceSettings,
    &'static str,
>)
    ensures
        settings_taken(r, stored),
{
    match stored {
        None => Ok(ServiceSettings { port: DEFAULT_PORT }),
        Some(settings) => match validate_port(settings.port) {
            Ok(()) => Ok(settings),
            Err(message) => Err(message),
        },
    }
}

/// A path below a directory begins with the directory and ends with the name,
/// with one separator of the system between them and no more.
pub proof fn law_paths_stand_below(platform: Platform, base: Seq<char>, name: Seq<char>)
    requires
        base.len() > 0,
    ensures
        begins_with(below(platform, base, name), base),
        base.last() == '/' ==> below(platform, base, name) == base + name,
        platform == Platform::Unix && base.last() != '/' ==> below(platform, base, name) == base
            + seq!['/'] + name,
        platform == Platform::Windows && base.last() == '\\' ==> below(platform, base, name)
            == base + name,
        platform == Platform::Windows && base.last() != '/' && base.last() != '\\' ==> below(
            platform,
            base,
            name,
        ) == base + seq!['\\'] + name,
{
    reveal_strlit("/");
    reveal_strlit("\\");
    assert("/"@ =~= seq!['/']);
    assert("\\"@ =~= seq!['\\']);
    assert(below(platform, base, name).take(base.len() as int) =~= base);
}

/// A directory that a variable gives is taken where it is absolute and refused
/// where it is not; without one it stands below the home directory.
pub proof fn law_directories_are_found(
    variable: Seq<char>,
    path: Seq<char>,
    home: Option<Seq<char>>,
    fallback: Seq<char>,
)
    ensures
        path.len() > 0 && path[0] == '/' ==> base_directory(variable, Some(path), home, fallback)
            == Ok::<Seq<char>, Seq<char>>(path),
        path.len() == 0 || path[0] != '/' ==> base_directory(
            variable,
            Some(path),
            home,
            fallback,
        ) is Err,
        home matches Some(directory) ==> base_directory(variable, None, home, fallback) == Ok::<
            Seq<char>,
            Seq<char>,
        >(below(Platform::Unix, directory, fallback)),
        home is None ==> base_directory(variable, None, home, fallback) is Err,
        profile_directory(variable, Some(path)) == Ok::<Seq<char>, Seq<char>>(path),
        profile_directory(variable, None) is Err,
{
    reveal_strlit("/");
    assert("/"@ =~= seq!['/']);
    if path.len() > 0 && path[0] == '/' {
        assert(path.take(1) =~= seq!['/']);
    } else if path.len() > 0 {
        assert(path.take(1)[0] != '/');
    }
}

/// On Unix the data, the configuration and the state each have their variable
/// and their place below the home directory.
pub proof fn law_unix_directories(
    r: Result<AppPaths, String>,
    variables: BaseVariables,
)
    requires
        variables.platform == Platform::Unix,
        paths_found(r, variables),
    ensures
        variables.home is Some && variables.data_home is None && variables.config_home is None
            && variables.state_home is None ==> (r matches Ok(paths) && paths.data_dir@ == below(
            Platform::Unix,
            below(Platform::Unix, variables.home->0@, ".local/share"@),
            "local-api-relay"@,
        ) && paths.config_dir@ == below(
            Platform::Unix,
            below(Platform::Unix, variables.home->0@, ".config"@),
            "local-api-relay"@,
        ) && paths.state_dir@ == below(
            Platform::Unix,
            below(Platform::Unix, variables.home->0@, ".local/state"@),
            "local-api-relay"@,
        )),
        r matches Ok(paths) ==> {
            &&& paths.platform == Platform::Unix
            &&& variables.data_home matches Some(dir) ==> paths.data_dir@ == below(
                Platform::Unix,
                dir@,
                "local-api-relay"@,
            )
            &&& variables.config_home matches Some(dir) ==> paths.config_dir@ == below(
                Platform::Unix,
                dir@,
                "local-api-relay"@,
            )
            &&& variables.state_home matches Some(dir) ==> paths.state_dir@ == below(
                Platform::Unix,
                dir@,
                "local-api-relay"@,
            )
        },
{
}

/// On Windows the data and the state lie in the local part of the profile, the
/// configuration in the roaming part; both must be there.
pub proof fn law_windows_directories(r: Result<AppPaths, String>, variables: BaseVariables)
    requires
        variables.platform == Platform::Windows,
        paths_found(r, variables),
    ensures
        r is Ok <==> variables.local_app_data is Some && variables.app_data is Some,
        r matches Ok(paths) ==> {
            let local = variables.local_app_data->0@;
            &&& paths.platform == Platform::Windows
            &&& paths.data_dir@ == below(Platform::Windows, local, "local-api-relay"@)
            &&& paths.state_dir@ == below(Platform::Windows, local, "local-api-relay"@)
            &&& paths.config_dir@ == below(
                Platform::Windows,
                variables.app_data->0@,
                "local-api-relay"@,
            )
        },
{
}

/// The database and the backups lie with the data, the settings with the
/// configuration, and the logs with the state.
pub proof fn law_files_lie_in_their_directories(paths: AppPaths)
    ensures
        database_file(paths) == below(paths.platform, paths.data_dir@, "relay.sqlite3"@),
        backup_directory(paths) == below(paths.platform, paths.data_dir@, "backups"@),
        settings_file(paths) == below(paths.platform, paths.config_dir@, "service.json"@),
        log_directory(paths) == below(paths.platform, paths.state_dir@, "logs"@),
{
}

/// The port is the one that was set, 8787 where none was, and never 0.
pub proof fn law_settings_are_taken(
    r: Result<ServiceSettings, &'static str>,
    stored: Option<ServiceSettings>,
)
    requires
        settings_taken(r, stored),
    ensures
        stored is None ==> r is Ok && r->Ok_0.port == 8787,
        stored matches Some(settings) ==> (settings.port != 0 ==> r is Ok && r->Ok_0.port
            == settings.port),
        stored matches Some(settings) ==> (settings.port == 0 ==> r is Err),
        r is Ok ==> r->Ok_0.port != 0,
{
}

/// Every port but 0 can be listened on.
pub proof fn law_ports_can_be_listened_on(port: u16)
    ensures
        1 <= port <= 65535 ==> port_refusal(port) is None,
        port == 0 ==> port_refusal(port) == Some("port must be between 1 and 65535"@),
{
}

/// The directories of data, configuration and state are made, in this order.
pub proof fn law_directories_are_made(paths: AppPaths)
    ensures
        directories_made(paths).len() == 3,
        directories_made(paths)[0] == paths.data_dir,
        directories_made(paths)[1] == paths.config_dir,
        directories_made(paths)[2] == paths.state_dir,
{
}

} // verus!
