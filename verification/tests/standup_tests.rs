use standup::config::{build, Config};
use standup::standup::{
    default_standup_template, filename, get_standup_template, initiate, initiate_directory,
    previous_standup_stem, run_success_message, StandupCommand,
};
use standup::text::{is_date_stem_str, lex_le_str, str_eq};

#[test]
fn test_directory_already_exists() {
    let directory = String::from("/tmp");
    let standup_template = String::from("./tests/test_standup_template.md");
    let config = Config { directory, standup_template, subcommand: None };

    let result = initiate_directory(config.directory.as_str(), true);

    assert_eq!(result, Err(String::from("/tmp already exists")));
}

#[test]
fn test_creating_directory() {
    let directory = String::from("./standup_directory");
    let standup_template = String::from("./tests/test_standup_template.md");
    let config = Config { directory, standup_template, subcommand: None };

    let result = initiate_directory(config.directory.as_str(), false);

    assert_eq!(
        result,
        Ok(String::from("./standup_directory was successfully created"))
    );
}

#[test]
fn test_standup_without_directory() {
    let directory = String::from("./standup_directory");
    let standup_template = String::from("./tests/test_standup_template.md");
    let config = Config { directory, standup_template, subcommand: None };

    let result = initiate(&config, false);

    assert_eq!(result, Err(String::from("Standup has not been initiated and the directory does not exist.\nYou can initiate Standup with the following:\n\tstandup init")));
}

#[test]
fn test_standup_w_directory_wo_prev_standup_w_template() {
    let stems: Vec<String> = Vec::new();
    let prev = previous_standup_stem(&stems);
    assert_eq!(prev, None);

    let template = get_standup_template(
        false,
        None,
        Some(String::from("## Yesterday\n## Today\n")),
    );
    assert_eq!(template, "## Yesterday\n## Today\n");
}

#[test]
fn test_standup_w_directory_wo_prev_standup_wo_template() {
    let stems: Vec<String> = Vec::new();
    let prev = previous_standup_stem(&stems);
    assert_eq!(prev, None);

    let template = get_standup_template(false, None, None);
    assert_eq!(template, "## Previous\n## Today\n");
}

#[test]
fn test_standup_w_directory_w_prev_standup() {
    let stems = vec![String::from("2011-11-11")];
    let prev = previous_standup_stem(&stems);
    assert_eq!(prev, Some(String::from("2011-11-11")));

    let note_path = filename("./tests/test_standup_directory", "2011-11-11");
    assert_eq!(note_path, "./tests/test_standup_directory/2011-11-11.md");

    let template = get_standup_template(
        false,
        Some(String::from("This is the previous standup")),
        None,
    );
    assert_eq!("This is the previous standup", template);
}

#[test]
fn test_standup_w_directory_w_current_standup() {
    let template = get_standup_template(
        true,
        Some(String::from("This is the current standup")),
        None,
    );
    assert_eq!(template, "");
}

#[test]
fn existing_template_file_is_returned_verbatim() {
    let template = get_standup_template(
        false,
        None,
        Some(String::from("## Previous\n## Today\n")),
    );
    assert_eq!(template, "## Previous\n## Today\n");
}

#[test]
fn previous_note_takes_priority_over_template() {
    let template = get_standup_template(
        false,
        Some(String::from("carried forward")),
        Some(String::from("from the template")),
    );
    assert_eq!(template, "carried forward");
}

#[test]
fn most_recent_of_two_dated_notes_is_selected() {
    let stems = vec![String::from("2010-01-12"), String::from("2011-11-11")];
    assert_eq!(previous_standup_stem(&stems), Some(String::from("2011-11-11")));

    let reversed = vec![String::from("2011-11-11"), String::from("2010-01-12")];
    assert_eq!(
        previous_standup_stem(&reversed),
        Some(String::from("2011-11-11"))
    );
}

#[test]
fn non_date_filenames_are_never_selected() {
    let stems = vec![
        String::from("notes.txt"),
        String::from("2011-11-11"),
        String::from("zzzz"),
    ];
    assert_eq!(previous_standup_stem(&stems), Some(String::from("2011-11-11")));

    let only_others = vec![String::from("notes.txt"), String::from("zzzz")];
    assert_eq!(previous_standup_stem(&only_others), None);
}

#[test]
fn date_stem_shape_is_exact() {
    assert!(is_date_stem_str("2011-11-11"));
    assert!(is_date_stem_str("0000-00-00"));
    assert!(!is_date_stem_str("notes"));
    assert!(!is_date_stem_str("notes.txt"));
    assert!(!is_date_stem_str("2011-11-1"));
    assert!(!is_date_stem_str("2011-11-115"));
    assert!(!is_date_stem_str("20111-11-1"));
    assert!(!is_date_stem_str("2011_11-11"));
    assert!(!is_date_stem_str("2011-11-1x"));
    assert!(!is_date_stem_str(""));
}

#[test]
fn lexicographic_order_on_stems() {
    assert!(lex_le_str("2010-01-12", "2011-11-11"));
    assert!(!lex_le_str("2011-11-11", "2010-01-12"));
    assert!(lex_le_str("2011-11-11", "2011-11-11"));
    assert!(lex_le_str("", "2011-11-11"));
    assert!(lex_le_str("abc", "abcd"));
    assert!(!lex_le_str("abcd", "abc"));
}

#[test]
fn string_equality_is_exact() {
    assert!(str_eq("init", "init"));
    assert!(!str_eq("init", "initx"));
    assert!(!str_eq("init", "Init"));
    assert!(str_eq("", ""));
}

#[test]
fn command_dispatch() {
    let init = build("/home/alex", Some(String::from("init")));
    assert_eq!(init.command(), StandupCommand::Initialize);

    let absent = build("/home/alex", None);
    assert_eq!(absent.command(), StandupCommand::Run);

    let unknown = build("/home/alex", Some(String::from("status")));
    assert_eq!(unknown.command(), StandupCommand::Run);
}

#[test]
fn build_computes_fixed_paths_under_home() {
    let config = build("/home/alex", None);
    assert_eq!(config.directory, "/home/alex/standups");
    assert_eq!(config.standup_template, "/home/alex/.standup_template");
}

#[test]
fn filename_joins_directory_date_and_extension() {
    assert_eq!(
        filename("/home/alex/standups", "2011-11-11"),
        "/home/alex/standups/2011-11-11.md"
    );
}

#[test]
fn reinitializing_right_after_creation_fails() {
    let directory = String::from("./standup_directory");
    let first = initiate_directory(directory.as_str(), false);
    assert_eq!(
        first,
        Ok(String::from("./standup_directory was successfully created"))
    );
    let second = initiate_directory(directory.as_str(), true);
    assert_eq!(second, Err(String::from("./standup_directory already exists")));
}

#[test]
fn initiate_targets_a_dated_note_inside_the_directory() {
    let directory = String::from("./tests/test_standup_directory");
    let standup_template = String::from("./tests/test_standup_template.md");
    let config = Config { directory, standup_template, subcommand: None };

    let target = initiate(&config, true).unwrap();

    assert!(target.starts_with("./tests/test_standup_directory/"));
    assert!(target.ends_with(".md"));
    // directory + "/" + a date of at least ten characters + ".md"
    assert!(target.len() >= "./tests/test_standup_directory".len() + 1 + 10 + 3);
}

#[test]
fn run_reports_success_once_the_editor_returns() {
    assert_eq!(run_success_message(), "Standup was successful");
}

#[test]
fn default_template_matches_builtin_text() {
    assert_eq!(default_standup_template(), "## Previous\n## Today\n");
}
