//! Installation metadata: the identity of the crashed application, read from
//! its `application.ini`, and the locations derived from it.

use vstd::prelude::*;
use crate::paths::FilePath;
use crate::prefs::chars_of;

verus! {

#[verifier::external_type_specification]
#[verifier::external_body]
pub struct ExIni(ini::Ini);

/// Key of an ini entry: the section (`None` for the general one) and the key.
pub type IniKey = (Option<Seq<char>>, Seq<char>);

/// What a parsed ini document holds, entry by entry.
pub uninterp spec fn ini_entries(conf: ini::Ini) -> Map<IniKey, Seq<char>>;

/// The entries that `Ini::load_from_str` reads from a text, or `None` where it
/// refuses the text.
pub uninterp spec fn ini_parse(text: Seq<char>) -> Option<Map<IniKey, Seq<char>>>;

/// The text holds a backslash followed by `x`, which `Ini::load_from_str`
/// reads as the escape of a 16-bit code point.
pub open spec fn has_code_point_escape(text: Seq<char>) -> bool {
    exists|i: int| 0 <= i && i + 1 < text.len() && #[trigger] text[i] == '\\' && text[i + 1] == 'x'
}

/// Relies on `ini::Ini::load_from_str`: parses the text, which is a function
/// of the text alone. The parser panics on a code-point escape that names a
/// surrogate, so such escapes are left out.
#[verifier::external_body]
fn parse_ini(text: &str) -> (r: Option<ini::Ini>)
    requires
        !has_code_point_escape(text@),
    ensures
        match r {
            Some(conf) => ini_parse(text@) == Some(ini_entries(conf)),
            None => ini_parse(text@) is None,
        },
{
    ini::Ini::load_from_str(text).ok()
}

/// Relies on `ini::Ini::get_from`: the value stored under `key` in the named
/// section, if both are there.
#[verifier::external_body]
fn ini_get(conf: &ini::Ini, section: &str, key: &str) -> (r: Option<String>)
    ensures
        r matches Some(v) ==> ini_entries(*conf).contains_key((Some(section@), key@))
            && v@ == ini_entries(*conf)[(Some(section@), key@)],
        r is None ==> !ini_entries(*conf).contains_key((Some(section@), key@)),
{
    conf.get_from(Some(section), key).map(|v| v.to_owned())
}

/// Why the installation metadata could not be read.
#[derive(Debug, Clone, Copy, PartialEq, Eq, Structural)]
pub enum ConfigError {
    /// The configuration text is not a valid ini document.
    Malformed,
    /// A required section or key is absent.
    MissingEntry,
    /// No line of the preferences names the release channel.
    NoChannelLine,
    /// The line naming the release channel has fewer than four quotes.
    MalformedChannelLine,
}

/// Identity of the crashed installation.
#[derive(Debug)]
pub struct ApplicationData {
    pub vendor: Option<String>,
    pub name: String,
    pub version: String,
    pub build_id: String,
    pub product_id: String,
    pub server_url: String,
}

/// The view of an optional string.
pub open spec fn opt_view(o: Option<String>) -> Option<Seq<char>> {
    match o {
        Some(s) => Some(s@),
        None => None,
    }
}

/// The value under `key` in section `section`, if any.
pub open spec fn entry(m: Map<IniKey, Seq<char>>, section: Seq<char>, key: Seq<char>) -> Option<
    Seq<char>,
> {
    if m.contains_key((Some(section), key)) {
        Some(m[(Some(section), key)])
    } else {
        None
    }
}

/// Every entry that an `ApplicationData` cannot do without is present.
pub open spec fn has_required_entries(m: Map<IniKey, Seq<char>>) -> bool {
    &&& entry(m, "App"@, "Name"@) is Some
    &&& entry(m, "App"@, "Version"@) is Some
    &&& entry(m, "App"@, "BuildID"@) is Some
    &&& entry(m, "App"@, "ID"@) is Some
    &&& entry(m, "Crash Reporter"@, "ServerURL"@) is Some
}

/// `d` holds exactly the entries of `m` that it is made of.
pub open spec fn app_data_matches(d: ApplicationData, m: Map<IniKey, Seq<char>>) -> bool {
    &&& opt_view(d.vendor) == entry(m, "App"@, "Vendor"@)
    &&& Some(d.name@) == entry(m, "App"@, "Name"@)
    &&& Some(d.version@) == entry(m, "App"@, "Version"@)
    &&& Some(d.build_id@) == entry(m, "App"@, "BuildID"@)
    &&& Some(d.product_id@) == entry(m, "App"@, "ID"@)
    &&& Some(d.server_url@) == entry(m, "Crash Reporter"@, "ServerURL"@)
}

fn contains_code_point_escape(text: &str) -> (r: bool)
    ensures
        r == has_code_point_escape(text@),
{
    let s = chars_of(text);
    let n = s.len();
    let mut i: usize = 0;
    while i < n
        invariant
            n == s@.len(),
            i <= n,
            s@ == text@,
            forall|j: int| 0 <= j < i && j + 1 < n ==> !(#[trigger] s@[j] == '\\' && s@[j + 1] == 'x'),
        decreases n - i,
    {
        if i + 1 < n && s[i] == '\\' && s[i + 1] == 'x' {
            return true;
        }
        i = i + 1;
    }
    false
}

impl ApplicationData {
    /// Reads the identity out of a parsed `application.ini`: section `App`
    /// with `Name`, `Version`, `BuildID`, `ID` and an optional `Vendor`, and
    /// section `Crash Reporter` with `ServerURL`.
    pub fn from_ini(conf: &ini::Ini) -> (r: Result<ApplicationData, ConfigError>)
        ensures
            r is Ok <==> has_required_entries(ini_entries(*conf)),
            r matches Ok(d) ==> app_data_matches(d, ini_entries(*conf)),
            r matches Err(e) ==> e == ConfigError::MissingEntry,
    {
        let vendor = ini_get(conf, "App", "Vendor");
        let name = match ini_get(conf, "App", "Name") {
            Some(v) => v,
            None => return Err(ConfigError::MissingEntry),
        };
        let version = match ini_get(conf, "App", "Version") {
            Some(v) => v,
            None => return Err(ConfigError::MissingEntry),
        };
        let build_id = match ini_get(conf, "App", "BuildID") {
            Some(v) => v,
            None => return Err(ConfigError::MissingEntry),
        };
        let product_id = match ini_get(conf, "App", "ID") {
            Some(v) => v,
            None => return Err(ConfigError::MissingEntry),
        };
        let server_url = match ini_get(conf, "Crash Reporter", "ServerURL") {
            Some(v) => v,
            None => return Err(ConfigError::MissingEntry),
        };
        Ok(ApplicationData { vendor, name, version, build_id, product_id, server_url })
    }

    /// Reads the identity out of the text of an `application.ini`. A text
    /// with a `\\x` code-point escape is refused as malformed.
    pub fn load_from_str(text: &str) -> (r: Result<ApplicationData, ConfigError>)
        ensures
            has_code_point_escape(text@) ==> r == Err::<ApplicationData, ConfigError>(
                ConfigError::Malformed,
            ),
            !has_code_point_escape(text@) ==> match ini_parse(text@) {
                None => r == Err::<ApplicationData, ConfigError>(ConfigError::Malformed),
                Some(m) => {
                    &&& r is Ok <==> has_required_entries(m)
                    &&& r matches Ok(d) ==> app_data_matches(d, m)
                    &&& r matches Err(e) ==> e == ConfigError::MissingEntry
                },
            },
    {
        if contains_code_point_escape(text) {
            return Err(ConfigError::Malformed);
        }
        match parse_ini(text) {
            Some(conf) => ApplicationData::from_ini(&conf),
            None => Err(ConfigError::Malformed),
        }
    }

    /// Location of `application.ini` in the installation directory.
    pub fn get_path(install_path: &FilePath) -> (r: FilePath)
        ensures
            r@ == install_path@.push("application.ini"@),
    {
        install_path.join("application.ini")
    }
}

/// Directory of the crash reports: `[vendor/]<product>/Crash Reports` under
/// the roaming application-data directory `roaming`.
pub fn crash_reports_dir(roaming: &str, application_data: &ApplicationData) -> (r: FilePath)
    ensures
        r@ == match application_data.vendor {
            Some(v) => seq![roaming@, v@, application_data.name@, "Crash Reports"@],
            None => seq![roaming@, application_data.name@, "Crash Reports"@],
        },
{
    let mut path = FilePath::from_root(roaming);
    match &application_data.vendor {
        Some(v) => {
            path = path.join(v.as_str());
        },
        None => {},
    }
    path = path.join(application_data.name.as_str());
    let r = path.join("Crash Reports");
    assert(r@ =~= match application_data.vendor {
        Some(v) => seq![roaming@, v@, application_data.name@, "Crash Reports"@],
        None => seq![roaming@, application_data.name@, "Crash Reports"@],
    });
    r
}

/// Location of the marker `InstallTime<build_id>` in the crash reports
/// directory.
pub fn install_time_path(crash_reports_dir: &FilePath, build_id: &str) -> (r: FilePath)
    ensures
        r@ == crash_reports_dir@.push("InstallTime"@ + build_id@),
{
    let mut name = String::from_str("InstallTime");
    name.append(build_id);
    crash_reports_dir.join(name.as_str())
}

} // verus!
