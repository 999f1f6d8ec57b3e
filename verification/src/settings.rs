//! The run settings: the three paths the tool works with, loaded from a
//! JSON configuration text. Loading fails outright — it never builds a
//! partial record — unless the text is well-formed JSON whose top level
//! holds all three string fields.

use vstd::prelude::*;
use crate::json::{json_as_str, json_get, json_of, json_str_fields, parse_json};
use crate::resolve::{join_path, join_spec};

verus! {

/// The configuration of one run: the HTML file to read, the directory to
/// write under, and the output file's name relative to that directory.
pub struct Settings {
    pub html_input_file: String,
    pub output_dir: String,
    pub html_output_file: String,
}

/// The text of the string field `key` of a parsed configuration: nothing
/// where the key is missing or the field is not a string.
pub open spec fn str_field(m: Map<Seq<char>, Option<Seq<char>>>, key: Seq<char>) -> Option<
    Seq<char>,
> {
    if m.dom().contains(key) && m[key] is Some {
        m[key]
    } else {
        None
    }
}

/// Reads the string field `field_name` of a parsed configuration value.
pub fn get_json_str_val(json: &serde_json::Value, field_name: &str) -> (r: Option<String>)
    ensures
        r is Some <==> str_field(json_str_fields(*json), field_name@) is Some,
        r matches Some(s) ==> str_field(json_str_fields(*json), field_name@) == Some(s@),
{
    match json_get(json, field_name) {
        Some(f) => json_as_str(f),
        None => None,
    }
}

/// Loads the settings from the configuration text.
pub fn settings_from_json(data: &str) -> (r: Option<Settings>)
    ensures
        r is Some <==> (json_of(data@) matches Some(m) && str_field(m, "htmlInputFile"@) is Some
            && str_field(m, "outputDir"@) is Some && str_field(m, "htmlOutputFile"@) is Some),
        r matches Some(st) ==> (json_of(data@) matches Some(m) && Some(st.html_input_file@)
            == str_field(m, "htmlInputFile"@) && Some(st.output_dir@) == str_field(m, "outputDir"@)
            && Some(st.html_output_file@) == str_field(m, "htmlOutputFile"@)),
{
    let json = match parse_json(data) {
        Ok(j) => j,
        Err(_) => {
            return None;
        },
    };
    let hif = match get_json_str_val(&json, "htmlInputFile") {
        Some(v) => v,
        None => {
            return None;
        },
    };
    let od = match get_json_str_val(&json, "outputDir") {
        Some(v) => v,
        None => {
            return None;
        },
    };
    let hof = match get_json_str_val(&json, "htmlOutputFile") {
        Some(v) => v,
        None => {
            return None;
        },
    };
    Some(Settings { html_input_file: hif, output_dir: od, html_output_file: hof })
}

impl Settings {
    /// The full path of the output file: its name joined onto the output
    /// directory.
    pub fn output_path(&self) -> (r: String)
        ensures
            r@ == join_spec(self.output_dir@, self.html_output_file@),
    {
        join_path(self.output_dir.as_str(), self.html_output_file.as_str())
    }
}

} // verus!
