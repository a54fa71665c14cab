//! The settings of the application: language, directories and the delimiter
//! of exported files.

use vstd::prelude::*;
use vstd::string::StringExecFns;
use crate::utils::json::json_object_parsed;
use crate::utils::json::member_text;
use crate::utils::json::parse_object;
use crate::utils::json::same_text;
use crate::utils::json::JsonObject;
use crate::utils::json::MemberView;

verus! {

/// What [`Settings`] hold, as texts.
pub struct SettingsView {
    pub language: Seq<char>,
    pub default_wire_file_directory: Seq<char>,
    pub default_csv_directory: Seq<char>,
    pub default_save_location: Seq<char>,
    pub csv_save_location: Seq<char>,
    pub default_csv_delimiter: Seq<char>,
    pub file_path: Seq<char>,
}

/// The settings that are used where no settings file exists.
pub open spec fn default_settings() -> SettingsView {
    SettingsView {
        language: "en"@,
        default_wire_file_directory: ""@,
        default_csv_directory: ""@,
        default_save_location: "/home/rsp/documents"@,
        csv_save_location: "/home/rsp/documents"@,
        default_csv_delimiter: "|"@,
        file_path: "resources/data/settings.json"@,
    }
}

/// The setting that `key` names; `None` where `key` names none. The path of
/// the settings file is not among those that can be asked for.
pub open spec fn setting(settings: SettingsView, key: Seq<char>) -> Option<Seq<char>> {
    if key == "language"@ {
        Some(settings.language)
    } else if key == "default_wire_file_directory"@ {
        Some(settings.default_wire_file_directory)
    } else if key == "default_csv_directory"@ {
        Some(settings.default_csv_directory)
    } else if key == "default_save_location"@ {
        Some(settings.default_save_location)
    } else if key == "csv_save_location"@ {
        Some(settings.csv_save_location)
    } else if key == "default_csv_delimiter"@ {
        Some(settings.default_csv_delimiter)
    } else {
        None
    }
}

/// The settings that an object holds: each of the seven is a member with a
/// text. `None` where one is missing or holds no text.
pub open spec fn settings_of(members: Seq<MemberView>) -> Option<SettingsView> {
    match (
        member_text(members, "language"@),
        member_text(members, "default_wire_file_directory"@),
        member_text(members, "default_csv_directory"@),
        member_text(members, "default_save_location"@),
        member_text(members, "csv_save_location"@),
        member_text(members, "default_csv_delimiter"@),
        member_text(members, "file_path"@),
    ) {
        (Some(a), Some(b), Some(c), Some(d), Some(e), Some(f), Some(g)) => Some(
            SettingsView {
                language: a,
                default_wire_file_directory: b,
                default_csv_directory: c,
                default_save_location: d,
                csv_save_location: e,
                default_csv_delimiter: f,
                file_path: g,
            },
        ),
        _ => None,
    }
}

/// The settings that the text of a settings file holds; `None` where the
/// text is no JSON object or the object lacks one of them.
pub open spec fn settings_read(contents: Seq<char>) -> Option<SettingsView> {
    match json_object_parsed(contents) {
        Some(members) => settings_of(members),
        None => None,
    }
}

/// The lines that describe the settings, each ended by a line feed.
pub open spec fn settings_report(settings: SettingsView) -> Seq<char> {
    "Current Settings:\n"@ + "Language: "@ + settings.language + "\n"@
        + "Default Wire File Directory: "@ + settings.default_wire_file_directory + "\n"@
        + "Default CSV Directory: "@ + settings.default_csv_directory + "\n"@
        + "Default Save Location: "@ + settings.default_save_location + "\n"@
        + "CSV Save Location: "@ + settings.csv_save_location + "\n"@ + "Default CSV Delimiter: "@
        + settings.default_csv_delimiter + "\n"@ + "Settings File Path: "@ + settings.file_path
        + "\n"@
}

/// The settings of the application.
#[derive(Debug)]
pub struct Settings {
    language: String,
    default_wire_file_directory: String,
    default_csv_directory: String,
    default_save_location: String,
    csv_save_location: String,
    default_csv_delimiter: String,
    file_path: String,
}

impl View for Settings {
    type V = SettingsView;

    closed spec fn view(&self) -> SettingsView {
        SettingsView {
            language: self.language@,
            default_wire_file_directory: self.default_wire_file_directory@,
            default_csv_directory: self.default_csv_directory@,
            default_save_location: self.default_save_location@,
            csv_save_location: self.csv_save_location@,
            default_csv_delimiter: self.default_csv_delimiter@,
            file_path: self.file_path@,
        }
    }
}

impl Settings {
    /// The settings for the contents of the settings file: those that the
    /// file holds where it was read, the default ones where there is no file.
    /// A file that is no JSON object, or lacks a setting, is an error.
    pub fn new(contents: Option<&str>) -> (settings: Result<Settings, serde_json::Error>)
        ensures
            contents is None ==> settings is Ok && settings->Ok_0@ == default_settings(),
            contents matches Some(text) ==> match settings_read(text@) {
                Some(read) => settings is Ok && settings->Ok_0@ == read,
                None => settings is Err,
            },
    {
        match contents {
            None => Ok(Settings::default()),
            Some(text) => {
                let object = parse_object(text)?;
                Settings::from_json_object(&object)
            },
        }
    }

    /// The settings that the object holds.
    pub fn from_json_object(object: &JsonObject) -> (settings: Result<Settings, serde_json::Error>)
        ensures
            match settings_of(object@) {
                Some(read) => settings is Ok && settings->Ok_0@ == read,
                None => settings is Err,
            },
    {
        let language = object.required_text("language")?;
        let default_wire_file_directory = object.required_text("default_wire_file_directory")?;
        let default_csv_directory = object.required_text("default_csv_directory")?;
        let default_save_location = object.required_text("default_save_location")?;
        let csv_save_location = object.required_text("csv_save_location")?;
        let default_csv_delimiter = object.required_text("default_csv_delimiter")?;
        let file_path = object.required_text("file_path")?;
        Ok(
            Settings {
                language,
                default_wire_file_directory,
                default_csv_directory,
                default_save_location,
                csv_save_location,
                default_csv_delimiter,
                file_path,
            },
        )
    }

    /// The settings that are used where no settings file exists.
    pub fn default() -> (settings: Settings)
        ensures
            settings@ == default_settings(),
    {
        Settings {
            language: String::from_str("en"),
            default_wire_file_directory: String::from_str(""),
            default_csv_directory: String::from_str(""),
            default_save_location: String::from_str("/home/rsp/documents"),
            csv_save_location: String::from_str("/home/rsp/documents"),
            default_csv_delimiter: String::from_str("|"),
            file_path: String::from_str("resources/data/settings.json"),
        }
    }

    /// The setting that `setting_key` names.
    pub fn get(&self, setting_key: &str) -> (value: Option<&str>)
        ensures
            match setting(self@, setting_key@) {
                Some(text) => value is Some && value->0@ == text,
                None => value is None,
            },
    {
        if same_text(setting_key, "language") {
            Some(self.language.as_str())
        } else if same_text(setting_key, "default_wire_file_directory") {
            Some(self.default_wire_file_directory.as_str())
        } else if same_text(setting_key, "default_csv_directory") {
            Some(self.default_csv_directory.as_str())
        } else if same_text(setting_key, "default_save_location") {
            Some(self.default_save_location.as_str())
        } else if same_text(setting_key, "csv_save_location") {
            Some(self.csv_save_location.as_str())
        } else if same_text(setting_key, "default_csv_delimiter") {
            Some(self.default_csv_delimiter.as_str())
        } else {
            None
        }
    }

    /// The lines that describe the settings, for whoever shows them.
    pub fn print(&self) -> (report: String)
        ensures
            report@ == settings_report(self@),
    {
        let mut report = String::from_str("Current Settings:\n");
        report.append("Language: ");
        report.append(self.language.as_str());
        report.append("\n");
        report.append("Default Wire File Directory: ");
        report.append(self.default_wire_file_directory.as_str());
        report.append("\n");
        report.append("Default CSV Directory: ");
        report.append(self.default_csv_directory.as_str());
        report.append("\n");
        report.append("Default Save Location: ");
        report.append(self.default_save_location.as_str());
        report.append("\n");
        report.append("CSV Save Location: ");
        report.append(self.csv_save_location.as_str());
        report.append("\n");
        report.append("Default CSV Delimiter: ");
        report.append(self.default_csv_delimiter.as_str());
        report.append("\n");
        report.append("Settings File Path: ");
        report.append(self.file_path.as_str());
        report.append("\n");
        report
    }
}

} // verus!
