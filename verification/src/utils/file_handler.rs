//! What is read from and written to the files of connections. The library
//! reads texts and says what is to be written where; its caller holds the
//! files.

use vstd::prelude::*;
use vstd::string::StringExecFns;
use crate::models::connection::all_readable;
use crate::models::connection::read_as_list;
use crate::models::connection::reads_as;
use crate::models::connection::record_readable;
use crate::models::connection::wires;
use crate::models::connection::Connection;
use crate::utils::json::json_error_text;
use crate::utils::json::json_object_list_parsed;
use crate::utils::json::json_object_list_rendered;
use crate::utils::json::object_views;
use crate::utils::json::parse_object_list;
use crate::utils::json::render_object_list;
use crate::utils::json::JsonObject;

verus! {

/// Why a file of connections could not be read or written.
#[derive(Debug)]
pub enum FileHandlerError {
    /// The file itself failed; the text says how.
    Io(String),
    /// The contents are no JSON array of connection records.
    Json(serde_json::Error),
    /// The handler was made without a path.
    PathNotSet,
}

impl FileHandlerError {
    /// What the error says, for whoever reads it. For an error of the JSON
    /// reader the text goes on with what the reader said.
    pub fn message(&self) -> (text: String)
        ensures
            match *self {
                FileHandlerError::Io(reason) => text@ == "IO error: "@ + reason@,
                FileHandlerError::Json(_) => "JSON error: "@.is_prefix_of(text@),
                FileHandlerError::PathNotSet => text@ == "Path not set"@,
            },
    {
        match self {
            FileHandlerError::Io(reason) => String::from_str("IO error: ").concat(reason.as_str()),
            FileHandlerError::Json(error) => String::from_str("JSON error: ").concat(
                json_error_text(error).as_str(),
            ),
            FileHandlerError::PathNotSet => String::from_str("Path not set"),
        }
    }
}

/// A file to write: its path and what it is to hold.
#[derive(Debug)]
pub struct FileWrite {
    pub path: String,
    pub contents: String,
}

/// Reads and writes the file of connections at one path.
#[derive(Debug)]
pub struct FileHandler {
    file_path: Option<String>,
}

impl FileHandler {
    /// The path of the file, where the handler has one.
    pub closed spec fn path(&self) -> Option<Seq<char>> {
        match self.file_path {
            Some(path) => Some(path@),
            None => None,
        }
    }

    /// A handler for the file at `file_path`.
    pub fn new(file_path: Option<String>) -> (handler: FileHandler)
        ensures
            handler.path() == file_path.deep_view(),
    {
        FileHandler { file_path }
    }

    /// The path of the file, where the handler has one.
    pub fn file_path(&self) -> (path: Option<&String>)
        ensures
            path.deep_view() == self.path(),
    {
        self.file_path.as_ref()
    }

    /// The connections that the records hold, in their order; an error where
    /// one of the records cannot be read as a connection.
    pub fn read_wires(records: &Vec<JsonObject>) -> (read: Result<Vec<Connection>, serde_json::Error>)
        ensures
            read is Ok <==> all_readable(object_views(records@)),
            read matches Ok(list) ==> read_as_list(object_views(records@), wires(list@)),
    {
        let mut list: Vec<Connection> = Vec::new();
        let mut at: usize = 0;
        while at < records.len()
            invariant
                at <= records.len(),
                all_readable(object_views(records@).take(at as int)),
                read_as_list(object_views(records@).take(at as int), wires(list@)),
            decreases records.len() - at,
        {
            let ghost before = wires(list@);
            match Connection::from_json_value(&records[at]) {
                Ok(connection) => {
                    list.push(connection);
                    proof {
                        let all = object_views(records@);
                        assert(all[at as int] == records@[at as int]@);
                        assert(wires(list@) =~= before.push(connection@));
                        let longer = all.take(at + 1);
                        assert forall|i: int| 0 <= i < longer.len() implies record_readable(
                            #[trigger] longer[i],
                        ) && reads_as(longer[i], wires(list@)[i]) by {
                            if i < at {
                                assert(longer[i] == all.take(at as int)[i]);
                            }
                        }
                    }
                },
                Err(error) => {
                    proof {
                        let all = object_views(records@);
                        assert(all[at as int] == records@[at as int]@);
                    }
                    return Err(error);
                },
            }
            at = at + 1;
        }
        proof {
            let all = object_views(records@);
            assert(all.take(at as int) =~= all);
        }
        Ok(list)
    }

    /// The connections that the contents of the file hold. The contents must
    /// be a JSON array of connection records.
    pub fn load_wires(&self, contents: &str) -> (loaded: Result<Vec<Connection>, FileHandlerError>)
        ensures
            self.path() is None ==> loaded matches Err(FileHandlerError::PathNotSet),
            self.path() is Some ==> match json_object_list_parsed(contents@) {
                Some(records) => if all_readable(records) {
                    loaded matches Ok(list) && read_as_list(records, wires(list@))
                } else {
                    loaded matches Err(FileHandlerError::Json(_))
                },
                None => loaded matches Err(FileHandlerError::Json(_)),
            },
    {
        if self.file_path.is_none() {
            return Err(FileHandlerError::PathNotSet);
        }
        match parse_object_list(contents) {
            Err(error) => Err(FileHandlerError::Json(error)),
            Ok(records) => match FileHandler::read_wires(&records) {
                Ok(list) => Ok(list),
                Err(error) => Err(FileHandlerError::Json(error)),
            },
        }
    }

    /// What to write to the handler's own file so that it holds `data`.
    /// Without a path nothing can be written.
    pub fn save(&self, data: &Vec<JsonObject>) -> (write: Result<FileWrite, FileHandlerError>)
        ensures
            match self.path() {
                None => write matches Err(FileHandlerError::Io(reason)) && reason@
                    == "File path not set"@,
                Some(path) => write matches Ok(file) && file.path@ == path && file.contents@
                    == json_object_list_rendered(object_views(data@)),
            },
    {
        match &self.file_path {
            None => Err(FileHandlerError::Io(String::from_str("File path not set"))),
            Some(path) => self.save_to_path(data, path),
        }
    }

    /// What to write to the file at `file_path` so that it holds `data`.
    pub fn save_to_path(&self, data: &Vec<JsonObject>, file_path: &String) -> (write: Result<
        FileWrite,
        FileHandlerError,
    >)
        ensures
            write matches Ok(file) && file.path@ == file_path@ && file.contents@
                == json_object_list_rendered(object_views(data@)),
    {
        match render_object_list(data) {
            Ok(contents) => Ok(FileWrite { path: file_path.clone(), contents }),
            Err(error) => Err(FileHandlerError::Json(error)),
        }
    }
}

} // verus!
