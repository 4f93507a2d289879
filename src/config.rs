//! Settings of the two status modules, and the display decisions that depend
//! on them.

use vstd::prelude::*;

verus! {

/// Settings of the module that shows the working-copy change.
#[derive(Clone, Debug)]
pub struct JujutsuCommitConfig<'a> {
    pub change_id_length: usize,
    pub format: &'a str,
    pub description_empty: &'a str,
    pub style_prefix: &'a str,
    pub style_rest: &'a str,
    pub style_description: &'a str,
    pub style_description_empty: &'a str,
}

impl Default for JujutsuCommitConfig<'_> {
    fn default() -> (r: Self)
        ensures
            r.change_id_length == 8,
            r.format@
                == "[$prefix]($style_prefix)[$rest]($style_rest) [$description]($style_description)"@,
            r.description_empty@ == "(no description)"@,
            r.style_prefix@ == "bold purple"@,
            r.style_rest@ == "bright-black"@,
            r.style_description@ == ""@,
            r.style_description_empty@ == "green"@,
    {
        JujutsuCommitConfig {
            change_id_length: 8,
            format: "[$prefix]($style_prefix)[$rest]($style_rest) [$description]($style_description)",
            description_empty: "(no description)",
            style_prefix: "bold purple",
            style_rest: "bright-black",
            style_description: "",
            style_description_empty: "green",
        }
    }
}

/// Settings of the module that shows added and deleted line counts.
#[derive(Clone, Debug)]
pub struct JujutsuDiffConfig<'a> {
    pub added_style: &'a str,
    pub deleted_style: &'a str,
    pub only_nonzero_diffs: bool,
    pub format: &'a str,
}

impl Default for JujutsuDiffConfig<'_> {
    fn default() -> (r: Self)
        ensures
            r.added_style@ == "bold green"@,
            r.deleted_style@ == "bold red"@,
            r.only_nonzero_diffs,
            r.format@ == "([+$added]($added_style) )([-$deleted]($deleted_style) )"@,
    {
        JujutsuDiffConfig {
            added_style: "bold green",
            deleted_style: "bold red",
            only_nonzero_diffs: true,
            format: "([+$added]($added_style) )([-$deleted]($deleted_style) )",
        }
    }
}

/// A count as it is handed to the formatter: left out when it is zero and
/// only non-zero counts are shown.
pub open spec fn shown(only_nonzero: bool, count: usize) -> Option<usize> {
    if only_nonzero && count == 0 {
        None
    } else {
        Some(count)
    }
}

/// The `added` and `deleted` values handed to the formatter.
pub fn shown_counts(config: &JujutsuDiffConfig, added: usize, deleted: usize) -> (r: (
    Option<usize>,
    Option<usize>,
))
    ensures
        r.0 == shown(config.only_nonzero_diffs, added),
        r.1 == shown(config.only_nonzero_diffs, deleted),
{
    let a = if config.only_nonzero_diffs && added == 0 {
        None
    } else {
        Some(added)
    };
    let d = if config.only_nonzero_diffs && deleted == 0 {
        None
    } else {
        Some(deleted)
    };
    (a, d)
}

/// The first line of a text, as `str::lines` cuts it.
pub uninterp spec fn first_line_of(text: Seq<char>) -> Seq<char>;

/// A text without its leading and trailing whitespace, as `str::trim` cuts it.
pub uninterp spec fn trimmed_of(text: Seq<char>) -> Seq<char>;

/// Relies on `str::lines`: an empty text has no lines, any other has a first
/// one.
#[verifier::external_body]
fn first_line(text: &str) -> (r: Option<&str>)
    ensures
        r is None <==> text@.len() == 0,
        r is Some ==> r->Some_0@ == first_line_of(text@),
{
    text.lines().next()
}

/// Relies on `str::trim`.
#[verifier::external_body]
fn trim(text: &str) -> (r: &str)
    ensures
        r@ == trimmed_of(text@),
{
    text.trim()
}

/// The description text and its style, given the trimmed first line of the
/// change's description (`None` for an empty description).
pub fn choose_description<'a>(config: &JujutsuCommitConfig<'a>, first_line: Option<&'a str>) -> (r: (
    &'a str,
    &'a str,
))
    ensures
        r == (match first_line {
            Some(line) => if line@.len() > 0 {
                (line, config.style_description)
            } else {
                (config.description_empty, config.style_description_empty)
            },
            None => (config.description_empty, config.style_description_empty),
        }),
{
    match first_line {
        Some(line) => {
            if line.is_empty() {
                (config.description_empty, config.style_description_empty)
            } else {
                (line, config.style_description)
            }
        },
        None => (config.description_empty, config.style_description_empty),
    }
}

/// The description text and its style for a change whose description is
/// `description`: its first line without surrounding whitespace, or the
/// configured placeholder when that is empty.
pub fn describe<'a>(config: &JujutsuCommitConfig<'a>, description: &'a str) -> (r: (
    &'a str,
    &'a str,
))
    ensures
        description@.len() == 0 ==> r == (config.description_empty, config.style_description_empty),
        description@.len() > 0 && trimmed_of(first_line_of(description@)).len() == 0 ==> r == (
            config.description_empty,
            config.style_description_empty,
        ),
        description@.len() > 0 && trimmed_of(first_line_of(description@)).len() > 0 ==> r.0@
            == trimmed_of(first_line_of(description@)) && r.1 == config.style_description,
{
    let line = match first_line(description) {
        Some(line) => Some(trim(line)),
        None => None,
    };
    choose_description(config, line)
}

} // verus!
