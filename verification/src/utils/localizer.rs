//! The texts that the application shows, by key, in one language.

use vstd::prelude::*;
use vstd::hash_map::StringHashMap;
use vstd::string::StringExecFns;
use crate::utils::json::json_object_parsed;
use crate::utils::json::parse_object;
use crate::utils::json::JsonObject;
use crate::utils::json::MemberView;

verus! {

/// The texts that the members of an object give: each member that holds a
/// text gives it under its name, and a later one of the same name replaces
/// an earlier one.
pub open spec fn resources_of(members: Seq<MemberView>) -> Map<Seq<char>, Seq<char>>
    decreases members.len(),
{
    if members.len() == 0 {
        Map::empty()
    } else {
        let earlier = resources_of(members.drop_last());
        match members.last().1 {
            Some(text) => earlier.insert(members.last().0, text),
            None => earlier,
        }
    }
}

/// The path of the file that holds the texts of a language.
pub open spec fn resource_path_of(language: Seq<char>) -> Seq<char> {
    "resources/locales/"@ + language + ".json"@
}

/// The texts of one language.
pub struct Localizer {
    language: String,
    resources: StringHashMap<String>,
}

impl Localizer {
    /// The language whose texts are asked for.
    pub closed spec fn language(&self) -> Seq<char> {
        self.language@
    }

    /// The texts that are loaded, by key.
    pub closed spec fn resources(&self) -> Map<Seq<char>, Seq<char>> {
        self.resources@.map_values(|text: String| text@)
    }

    /// A localizer for the language, with no texts loaded yet.
    pub fn new(initial_language: &str) -> (localizer: Localizer)
        ensures
            localizer.language() == initial_language@,
            localizer.resources() == Map::<Seq<char>, Seq<char>>::empty(),
    {
        let localizer = Localizer {
            language: String::from_str(initial_language),
            resources: StringHashMap::new(),
        };
        assert(localizer.resources() =~= Map::<Seq<char>, Seq<char>>::empty());
        localizer
    }

    /// Changes the language. The texts stay until those of the new language
    /// are loaded.
    pub fn set_language(&mut self, language: &str)
        ensures
            final(self).language() == language@,
            final(self).resources() == old(self).resources(),
    {
        self.language = String::from_str(language);
    }

    /// The text for `key`, or `Missing` where none is loaded for it.
    pub fn get(&self, key: &str) -> (text: String)
        ensures
            text@ == if self.resources().contains_key(key@) {
                self.resources()[key@]
            } else {
                "Missing"@
            },
    {
        match self.resources.get(key) {
            Some(text) => text.clone(),
            None => String::from_str("Missing"),
        }
    }

    /// The path of the file that holds the texts of the language.
    pub fn resource_path(&self) -> (path: String)
        ensures
            path@ == resource_path_of(self.language()),
    {
        let mut path = String::from_str("resources/locales/");
        path.append(self.language.as_str());
        path.append(".json");
        path
    }

    /// Replaces the texts by those that the contents of a language file
    /// hold. Contents that are no JSON object leave the texts as they are.
    pub fn load_resources(&mut self, contents: &str)
        ensures
            final(self).language() == old(self).language(),
            final(self).resources() == match json_object_parsed(contents@) {
                Some(members) => resources_of(members),
                None => old(self).resources(),
            },
    {
        match parse_object(contents) {
            Ok(object) => self.set_resources(&object),
            Err(_) => {},
        }
    }

    /// Replaces the texts by those that the members of the object hold.
    pub fn set_resources(&mut self, object: &JsonObject)
        ensures
            final(self).language() == old(self).language(),
            final(self).resources() == resources_of(object@),
    {
        self.resources.clear();
        assert(self.resources() =~= Map::<Seq<char>, Seq<char>>::empty());
        let mut at: usize = 0;
        while at < object.members.len()
            invariant
                at <= object.members.len(),
                self.language() == old(self).language(),
                self.resources() == resources_of(object@.take(at as int)),
            decreases object.members.len() - at,
        {
            let ghost earlier = self.resources();
            proof {
                assert(object@.take(at + 1).drop_last() =~= object@.take(at as int));
                assert(object@.take(at + 1).last() == object@[at as int]);
            }
            match &object.members[at].1 {
                Some(text) => {
                    self.resources.insert(object.members[at].0.clone(), text.clone());
                    assert(self.resources() =~= earlier.insert(object@[at as int].0, text@));
                },
                None => {},
            }
            at = at + 1;
        }
        proof {
            assert(object@.take(at as int) =~= object@);
        }
    }
}

} // verus!
