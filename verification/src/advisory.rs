//! One advisory of an audit report, and how it is read out of its block.
//!
//! A block lists the fields of an advisory one per line, as in
//! `Crate:     anymap`. Each field is looked for on its own; one that is not
//! found never stops the others from being read.
use crate::field::{
    begins_with, field_head, field_value, find_field, find_in_lines, lemma_value_in_lines,
    text_of, value_in_line, value_in_lines,
};
use crate::split::{lines_of, split_lines};
use crate::text::{chars_of, trim};
use vstd::prelude::*;

verus! {

/// The name of the field with the advisory's identifier.
pub const ID_FIELD: &'static str = "ID";

/// The name of the field with the address of the advisory's page.
pub const URL_FIELD: &'static str = "URL";

/// The name of the field with the crate that the advisory is about.
pub const CRATE_FIELD: &'static str = "Crate";

/// The name of the field with the version of that crate.
pub const VERSION_FIELD: &'static str = "Version";

/// The name of the field with the kind of warning, where the advisory is
/// one.
pub const WARNING_FIELD: &'static str = "Warning";

/// The name of the field with the advisory's title.
pub const TITLE_FIELD: &'static str = "Title";

/// The name of the field with the date of the advisory.
pub const DATE_FIELD: &'static str = "Date";

/// The name of the field with the advice on how to get rid of the problem.
pub const SOLUTION_FIELD: &'static str = "Solution";

/// The identifier of an advisory whose block names none.
pub const UNKNOWN_ID: &'static str = "unknown";

/// Stands for the address where a block gives none.
pub const NO_URL: &'static str = "No URL";

/// Stands for the crate's name where a block gives none.
pub const NO_CRATE: &'static str = "No Crate";

/// Stands for the version where a block gives none.
pub const NO_VERSION: &'static str = "No Version";

/// Stands for the title where a block gives none.
pub const NO_TITLE: &'static str = "No Title";

/// Stands for the date where a block gives none.
pub const NO_DATE: &'static str = "No Date";

/// Stands for the kind of warning where a block gives none.
pub const NO_WARNING: &'static str = "No Warning";

/// Stands for the solution where a block gives none.
pub const NO_SOLUTION: &'static str = "No Solution";

/// One advisory as the audit tool reported it.
#[derive(Clone, Debug)]
pub struct Rustsec {
    /// The advisory's identifier, such as `RUSTSEC-2021-0065`.
    pub id: String,
    /// The address of the advisory's page.
    pub url: String,
    /// The crate that the advisory is about.
    pub krate: String,
    /// The version of that crate in the lock file.
    pub version: String,
    /// The kind of warning (`unmaintained`, `unsound`, ...), for an advisory
    /// that is a warning and no vulnerability.
    pub warning: String,
    /// The advisory's title.
    pub title: String,
    /// The date of the advisory.
    pub date: String,
    /// How to get rid of the problem, where the tool knows a way.
    pub solution: String,
    /// The block that the advisory was read from, unchanged.
    pub raw: String,
}

/// A `Rustsec` with its texts as sequences of characters.
pub ghost struct RustsecView {
    pub id: Seq<char>,
    pub url: Seq<char>,
    pub krate: Seq<char>,
    pub version: Seq<char>,
    pub warning: Seq<char>,
    pub title: Seq<char>,
    pub date: Seq<char>,
    pub solution: Seq<char>,
    pub raw: Seq<char>,
}

impl View for Rustsec {
    type V = RustsecView;

    open spec fn view(&self) -> RustsecView {
        RustsecView {
            id: self.id@,
            url: self.url@,
            krate: self.krate@,
            version: self.version@,
            warning: self.warning@,
            title: self.title@,
            date: self.date@,
            solution: self.solution@,
            raw: self.raw@,
        }
    }
}

/// A field's text where it was found, and `default` where it was not.
pub open spec fn value_or(value: Option<Seq<char>>, default: Seq<char>) -> Seq<char> {
    match value {
        Some(text) => text,
        None => default,
    }
}

/// The value of the field `name` in `block`, and `default` where the block
/// has no line that gives the field.
pub open spec fn field_or(name: Seq<char>, block: Seq<char>, default: Seq<char>) -> Seq<char> {
    value_or(field_value(block, name), default)
}

/// The advisory that a block describes. Every field is read from the block
/// on its own, from the first line that begins with the field's name, and
/// whatever value stands there is taken. A block without a line for the
/// identifier gets the identifier `unknown`; every other field that the
/// block has no line for gets a text that says what is missing.
pub open spec fn record_of(block: Seq<char>) -> RustsecView {
    RustsecView {
        id: field_or(ID_FIELD@, block, UNKNOWN_ID@),
        url: field_or(URL_FIELD@, block, NO_URL@),
        krate: field_or(CRATE_FIELD@, block, NO_CRATE@),
        version: field_or(VERSION_FIELD@, block, NO_VERSION@),
        warning: field_or(WARNING_FIELD@, block, NO_WARNING@),
        title: field_or(TITLE_FIELD@, block, NO_TITLE@),
        date: field_or(DATE_FIELD@, block, NO_DATE@),
        solution: field_or(SOLUTION_FIELD@, block, NO_SOLUTION@),
        raw: block,
    }
}

/// The text of a field where one was found, and `default` where none was.
pub fn text_or(value: Option<String>, default: &str) -> (text: String)
    ensures
        text@ == value_or(text_of(value), default@),
{
    match value {
        Some(text) => text,
        None => default.to_string(),
    }
}

/// Reads one field out of a block: the value on the first line of
/// `rustsec_str` that begins with `name`, a colon and a space, without white
/// space around it, and `default` where no line does.
pub fn parse_caps(name: &str, rustsec_str: &str, default: &str) -> (text: String)
    ensures
        text@ == field_or(name@, rustsec_str@, default@),
{
    text_or(find_field(name, rustsec_str), default)
}

/// Reads the advisory that a block describes. No block is refused: what it
/// does not say is filled in as `record_of` states.
pub fn parse_rustsec(rustsec_str: &str) -> (record: Rustsec)
    ensures
        record@ == record_of(rustsec_str@),
{
    let chars = chars_of(rustsec_str);
    let lines = lines_of(&chars);
    let id = text_or(find_in_lines(&lines, ID_FIELD), UNKNOWN_ID);
    let url = text_or(find_in_lines(&lines, URL_FIELD), NO_URL);
    let krate = text_or(find_in_lines(&lines, CRATE_FIELD), NO_CRATE);
    let version = text_or(find_in_lines(&lines, VERSION_FIELD), NO_VERSION);
    let warning = text_or(find_in_lines(&lines, WARNING_FIELD), NO_WARNING);
    let title = text_or(find_in_lines(&lines, TITLE_FIELD), NO_TITLE);
    let date = text_or(find_in_lines(&lines, DATE_FIELD), NO_DATE);
    let solution = text_or(find_in_lines(&lines, SOLUTION_FIELD), NO_SOLUTION);
    let raw = rustsec_str.to_string();

    Rustsec { id, url, krate, version, warning, title, date, solution, raw }
}

/// A block without a line for the identifier is still read, and its
/// advisory has the identifier `unknown`: that is so whenever no line of
/// the block begins with `ID: `.
pub proof fn lemma_missing_id_is_unknown(block: Seq<char>)
    requires
        forall|i: int|
            0 <= i < split_lines(block, '\n', '\r').len() ==> !begins_with(
                #[trigger] split_lines(block, '\n', '\r')[i],
                seq!['I', 'D', ':', ' '],
            ),
    ensures
        record_of(block).id == seq!['u', 'n', 'k', 'n', 'o', 'w', 'n'],
{
    reveal_strlit("unknown");
    reveal_strlit("ID");
    assert(field_head(ID_FIELD@) == seq!['I', 'D', ':', ' ']);
    lemma_value_in_lines(split_lines(block, '\n', '\r'), ID_FIELD@);
}

/// A block with a line for the identifier has the identifier that the
/// first such line gives, whatever it is.
pub proof fn lemma_id_is_the_value_of_its_line(block: Seq<char>, i: int)
    requires
        0 <= i < split_lines(block, '\n', '\r').len(),
        begins_with(split_lines(block, '\n', '\r')[i], field_head(ID_FIELD@)),
        forall|j: int|
            0 <= j < i ==> !begins_with(
                #[trigger] split_lines(block, '\n', '\r')[j],
                field_head(ID_FIELD@),
            ),
    ensures
        record_of(block).id == trim(
            split_lines(block, '\n', '\r')[i].skip(field_head(ID_FIELD@).len() as int),
        ),
{
    let lines = split_lines(block, '\n', '\r');
    lemma_value_in_lines(lines, ID_FIELD@);
    assert(value_in_line(lines[i], ID_FIELD@) is Some);
    let found = choose|k: int|
        {
            &&& 0 <= k < lines.len()
            &&& value_in_line(#[trigger] lines[k], ID_FIELD@) == value_in_lines(lines, ID_FIELD@)
            &&& forall|j: int| 0 <= j < k ==> value_in_line(#[trigger] lines[j], ID_FIELD@) is None
        };
    if found < i {
        assert(!begins_with(lines[found], field_head(ID_FIELD@)));
    } else if found > i {
        assert(value_in_line(lines[i], ID_FIELD@) is None);
    }
}

} // verus!
