//! The tool's two operations: one-time initialization of the notes
//! directory, and the per-invocation resolution of which dated note file to
//! open and what seed content it starts with.
//!
//! Filesystem facts come in as plain values (does a path exist, what a read
//! returned); every decision taken on them is verified here. The only
//! outside call is the one that asks the system clock for today's date.

use vstd::prelude::*;

use crate::config::Config;
use crate::text::{
    is_date_stem,
    is_date_stem_str,
    lemma_lex_le_is_chronological,
    lemma_lex_le_refl,
    lemma_lex_le_total,
    lemma_lex_le_trans,
    lex_le,
    lex_le_str,
    stem_date_value,
};

verus! {

/// Which of the tool's two operations an invocation selects.
#[derive(Clone, Copy, Debug, PartialEq, Eq, Structural)]
pub enum StandupCommand {
    Initialize,
    Run,
}

/// The built-in seed used when neither a prior note nor a template file is
/// readable.
pub open spec fn default_template() -> Seq<char> {
    "## Previous\n## Today\n"@
}

/// The message of a `Run` attempted before the notes directory exists.
pub open spec fn not_initialized_message() -> Seq<char> {
    "Standup has not been initiated and the directory does not exist.\nYou can initiate Standup with the following:\n\tstandup init"@
}

/// The built-in default seed as an owned string.
pub fn default_standup_template() -> (r: String)
    ensures
        r@ == default_template(),
{
    String::from_str("## Previous\n## Today\n")
}

/// The full path of a dated note file: `<directory>/<date_string>.md`.
pub fn filename(directory: &str, date_string: &str) -> (r: String)
    ensures
        r@ == directory@ + "/"@ + date_string@ + ".md"@,
{
    let mut r = String::from_str(directory);
    r.append("/");
    r.append(date_string);
    r.append(".md");
    proof {
        assert(r@ =~= directory@ + "/"@ + date_string@ + ".md"@);
    }
    r
}

/// Among the given filename stems, the lexicographically greatest one of
/// date shape `YYYY-MM-DD`, if any: the most recent prior note, since on
/// such stems lexicographic and chronological order agree. Stems of any
/// other shape are never selected.
pub fn previous_standup_stem(stems: &Vec<String>) -> (r: Option<String>)
    ensures
        match r {
            Some(s) => {
                &&& is_date_stem(s@)
                &&& exists|i: int| 0 <= i < stems@.len() && (#[trigger] stems@[i])@ == s@
                &&& forall|i: int|
                    0 <= i < stems@.len() && is_date_stem((#[trigger] stems@[i])@) ==> lex_le(
                        stems@[i]@,
                        s@,
                    )
                &&& forall|i: int|
                    0 <= i < stems@.len() && is_date_stem((#[trigger] stems@[i])@)
                        ==> stem_date_value(stems@[i]@) <= stem_date_value(s@)
            },
            None => forall|i: int| 0 <= i < stems@.len() ==> !is_date_stem((#[trigger] stems@[i])@),
        },
{
    let mut best: Option<String> = None;
    let mut k: usize = 0;
    while k < stems.len()
        invariant
            0 <= k <= stems@.len(),
            match best {
                Some(s) => {
                    &&& is_date_stem(s@)
                    &&& exists|i: int| 0 <= i < k && (#[trigger] stems@[i])@ == s@
                    &&& forall|i: int|
                        0 <= i < k && is_date_stem((#[trigger] stems@[i])@) ==> lex_le(
                            stems@[i]@,
                            s@,
                        )
                },
                None => forall|i: int| 0 <= i < k ==> !is_date_stem((#[trigger] stems@[i])@),
            },
        decreases stems@.len() - k,
    {
        let cand = &stems[k];
        if is_date_stem_str(cand.as_str()) {
            let replace = match &best {
                None => true,
                Some(cur) => lex_le_str(cur.as_str(), cand.as_str()),
            };
            if replace {
                proof {
                    lemma_lex_le_refl(cand@);
                    if best is Some {
                        let cur_view = best->0@;
                        assert forall|i: int|
                            0 <= i < k + 1 && is_date_stem((#[trigger] stems@[i])@) implies lex_le(
                            stems@[i]@,
                            cand@,
                        ) by {
                            if i < k {
                                lemma_lex_le_trans(stems@[i]@, cur_view, cand@);
                            }
                        }
                    }
                }
                best = Some(cand.clone());
            } else {
                proof {
                    let cur_view = best->0@;
                    lemma_lex_le_total(cur_view, cand@);
                    assert(lex_le(cand@, cur_view));
                }
            }
        }
        k += 1;
    }
    proof {
        if best is Some {
            let best_view = best->0@;
            assert forall|i: int|
                0 <= i < stems@.len() && is_date_stem(
                    (#[trigger] stems@[i])@,
                ) implies stem_date_value(stems@[i]@) <= stem_date_value(best_view) by {
                lemma_lex_le_is_chronological(stems@[i]@, best_view);
            }
        }
    }
    best
}

/// Seed content for the note about to be opened, resolved from what the
/// filesystem reads produced: `previous_note` is the full text of the most
/// recent prior dated note (`None` when no dated note exists or the file
/// could not be read), `template` the full text of the user's template file
/// (`None` when it could not be read). An already existing target note is
/// never reseeded: its seed is empty.
pub fn get_standup_template(
    target_exists: bool,
    previous_note: Option<String>,
    template: Option<String>,
) -> (r: String)
    ensures
        target_exists ==> r@ == Seq::<char>::empty(),
        !target_exists && previous_note is Some ==> r@ == previous_note->0@,
        !target_exists && previous_note is None && template is Some ==> r@ == template->0@,
        !target_exists && previous_note is None && template is None ==> r@ == default_template(),
{
    if target_exists {
        String::new()
    } else {
        match previous_note {
            Some(contents) => contents,
            None => match template {
                Some(contents) => contents,
                None => default_standup_template(),
            },
        }
    }
}

/// Decision of the one-time initialization: a path that already exists is
/// refused with `<path> already exists`; a fresh path is to be created and
/// announced with `<path> was successfully created`.
pub fn initiate_directory(directory: &str, already_exists: bool) -> (r: Result<String, String>)
    ensures
        already_exists ==> r is Err && r->Err_0@ == directory@ + " already exists"@,
        !already_exists ==> r is Ok && r->Ok_0@ == directory@ + " was successfully created"@,
{
    let mut message = String::from_str(directory);
    if already_exists {
        message.append(" already exists");
        Err(message)
    } else {
        message.append(" was successfully created");
        Ok(message)
    }
}

/// Relies on chrono's `Local::now` and its `%Y-%m-%d` formatting: today's
/// local calendar date as `YYYY-MM-DD`. chrono zero-pads the year to at
/// least four digits and month and day to two, so the result holds at least
/// ten characters; nothing more is assumed of a clock reading.
#[verifier::external_body]
fn today_date_string() -> (r: String)
    ensures
        r@.len() >= 10,
{
    chrono::Local::now().format("%Y-%m-%d").to_string()
}

/// Decision of the `Run` operation up to the editor launch: refused with
/// the not-initialized message while the notes directory does not exist;
/// otherwise the note to open is `<directory>/<date>.md` for today's local
/// date.
pub fn initiate(config: &Config, directory_exists: bool) -> (r: Result<String, String>)
    ensures
        !directory_exists ==> r is Err && r->Err_0@ == not_initialized_message(),
        directory_exists ==> r is Ok && (exists|date: Seq<char>|
            #![auto]
            date.len() >= 10 && r->Ok_0@ == config.directory@ + "/"@ + date + ".md"@),
{
    if !directory_exists {
        return Err(
            String::from_str(
                "Standup has not been initiated and the directory does not exist.\nYou can initiate Standup with the following:\n\tstandup init",
            ),
        );
    }
    let date_string = today_date_string();
    let target = filename(config.directory.as_str(), date_string.as_str());
    proof {
        assert(date_string@.len() >= 10 && target@ == config.directory@ + "/"@ + date_string@
            + ".md"@);
    }
    Ok(target)
}

/// The message reported once the editor has run.
pub fn run_success_message() -> (r: String)
    ensures
        r@ == "Standup was successful"@,
{
    String::from_str("Standup was successful")
}

} // verus!
