use modtester::arguments::{
    lowered_word, read_arguments, same_text, word, End, Named, Reading, Slot, Warning, Word,
};

fn read(line: &[&str]) -> Reading {
    read_arguments(&line.iter().map(|text| text.to_string()).collect())
}

fn nothing() -> Named {
    Named::new()
}

#[test]
fn nothing_is_set_by_an_empty_command_line() {
    let reading = read(&[]);
    assert_eq!(reading.end, End::Complete);
    assert!(reading.warnings.is_empty());
    assert_eq!(reading.named, nothing());
    assert_eq!(
        nothing(),
        Named {
            target_dir: None,
            source_dir: None,
            auto_assigned_source: false,
            temp_dir: None,
            program: None,
            dummy_mode: false,
            exhaustive: false,
            auto_recover: false,
        }
    );
}

#[test]
fn paths_without_names_fill_target_source_temp_program() {
    let reading = read(&["/t", "/s", "/tmp", "/bin/p"]);
    assert_eq!(reading.end, End::Complete);
    assert!(reading.warnings.is_empty());
    assert_eq!(
        reading.named,
        Named {
            target_dir: Some(0),
            source_dir: Some(1),
            temp_dir: Some(2),
            program: Some(3),
            ..nothing()
        }
    );
}

#[test]
fn target_alone_is_the_source_too() {
    let reading = read(&["/t"]);
    assert_eq!(
        reading.named,
        Named { target_dir: Some(0), source_dir: Some(0), auto_assigned_source: true, ..nothing() }
    );
    let reading = read(&["--target", "/t"]);
    assert_eq!(
        reading.named,
        Named { target_dir: Some(1), source_dir: Some(1), auto_assigned_source: true, ..nothing() }
    );
}

#[test]
fn fifth_path_is_warned_of() {
    let reading = read(&["/t", "/s", "/tmp", "/bin/p", "/extra", "-d", "/more"]);
    assert_eq!(reading.end, End::Complete);
    assert_eq!(reading.warnings, vec![Warning::Unused(4), Warning::Unused(6)]);
    assert!(reading.named.dummy_mode);
    assert_eq!(reading.named.program, Some(3));
}

#[test]
fn named_source_is_skipped_by_paths_without_names() {
    // the source is named first: the two paths are the target and the staging place
    let reading = read(&["--source", "/s", "/t", "/tmp"]);
    assert_eq!(reading.end, End::Complete);
    assert!(reading.warnings.is_empty());
    assert_eq!(
        reading.named,
        Named { source_dir: Some(1), target_dir: Some(2), temp_dir: Some(3), ..nothing() }
    );
}

#[test]
fn names_can_come_in_any_order() {
    let reading = read(&["--program", "/p", "--temp", "/tmp", "--source", "/s", "--target", "/t"]);
    assert_eq!(reading.end, End::Complete);
    assert!(reading.warnings.is_empty());
    assert_eq!(
        reading.named,
        Named {
            program: Some(1),
            temp_dir: Some(3),
            source_dir: Some(5),
            target_dir: Some(7),
            ..nothing()
        }
    );
}

#[test]
fn names_are_read_without_regard_to_case() {
    let reading = read(&["--TARGET", "/T", "--Source", "/S", "-E", "--DUMMY", "--AutoRecover"]);
    assert_eq!(reading.end, End::Complete);
    assert_eq!(
        reading.named,
        Named {
            target_dir: Some(1),
            source_dir: Some(3),
            exhaustive: true,
            dummy_mode: true,
            auto_recover: true,
            ..nothing()
        }
    );
}

#[test]
fn switches_have_a_long_and_a_short_form() {
    assert!(read(&["--exhaustive"]).named.exhaustive);
    assert!(read(&["-e"]).named.exhaustive);
    assert!(read(&["--dummy"]).named.dummy_mode);
    assert!(read(&["-d"]).named.dummy_mode);
    assert!(read(&["--autorecover"]).named.auto_recover);
    assert!(read(&["-a"]).named.auto_recover);
    let reading = read(&["-e"]);
    assert_eq!(reading.named, Named { exhaustive: true, ..nothing() });
}

#[test]
fn path_set_again_by_name_is_warned_of() {
    let reading = read(&["/t", "--target", "/other"]);
    assert_eq!(reading.warnings, vec![Warning::Reassigned(Slot::Target)]);
    // the source that came with the first target stays
    assert_eq!(
        reading.named,
        Named { target_dir: Some(2), source_dir: Some(0), auto_assigned_source: true, ..nothing() }
    );
    let reading = read(&["--temp", "/a", "--temp", "/b", "--program", "/p", "--program", "/q"]);
    assert_eq!(
        reading.warnings,
        vec![Warning::Reassigned(Slot::Temp), Warning::Reassigned(Slot::Program)]
    );
    assert_eq!(reading.named.temp_dir, Some(3));
    assert_eq!(reading.named.program, Some(7));
}

#[test]
fn source_taken_from_the_target_gives_way_without_a_warning() {
    let reading = read(&["/t", "--source", "/s"]);
    assert!(reading.warnings.is_empty());
    assert_eq!(
        reading.named,
        Named { target_dir: Some(0), source_dir: Some(2), ..nothing() }
    );
    let reading = read(&["/t", "/s", "--source", "/again"]);
    assert_eq!(reading.warnings, vec![Warning::Reassigned(Slot::Source)]);
    assert_eq!(reading.named.source_dir, Some(3));
}

#[test]
fn name_without_a_path_ends_the_reading() {
    let reading = read(&["/t", "--temp"]);
    assert_eq!(reading.end, End::Missing(Slot::Temp));
    assert_eq!(reading.named.target_dir, Some(0));
    assert_eq!(reading.named.temp_dir, None);
    assert_eq!(read(&["--target"]).end, End::Missing(Slot::Target));
    assert_eq!(read(&["--source"]).end, End::Missing(Slot::Source));
    assert_eq!(read(&["--program"]).end, End::Missing(Slot::Program));
    // the warning comes before the end
    let reading = read(&["/t", "--target"]);
    assert_eq!(reading.end, End::Missing(Slot::Target));
    assert_eq!(reading.warnings, vec![Warning::Reassigned(Slot::Target)]);
}

#[test]
fn help_ends_the_reading() {
    let reading = read(&["/t", "-h", "--dummy", "--temp"]);
    assert_eq!(reading.end, End::Help);
    assert_eq!(reading.named.target_dir, Some(0));
    assert!(!reading.named.dummy_mode);
    assert_eq!(read(&["--help"]).end, End::Help);
    assert_eq!(read(&["--HELP"]).end, End::Help);
}

#[test]
fn argument_after_a_name_is_a_path_whatever_it_looks_like() {
    let reading = read(&["--target", "--dummy", "--source", "-h"]);
    assert_eq!(reading.end, End::Complete);
    assert!(!reading.named.dummy_mode);
    assert_eq!(reading.named.target_dir, Some(1));
    assert_eq!(reading.named.source_dir, Some(3));
}

#[test]
fn unknown_switch_is_taken_for_a_path() {
    let reading = read(&["--verbose"]);
    assert_eq!(reading.end, End::Complete);
    assert_eq!(reading.named.target_dir, Some(0));
}

#[test]
fn words_are_told_apart_by_their_lower_case_form() {
    assert_eq!(word("--target"), Word::Target);
    assert_eq!(word("--Target"), Word::Target);
    assert_eq!(word("--source"), Word::Source);
    assert_eq!(word("--temp"), Word::Temp);
    assert_eq!(word("--program"), Word::Program);
    assert_eq!(word("--exhaustive"), Word::Exhaustive);
    assert_eq!(word("-E"), Word::Exhaustive);
    assert_eq!(word("--dummy"), Word::Dummy);
    assert_eq!(word("-D"), Word::Dummy);
    assert_eq!(word("--autorecover"), Word::AutoRecover);
    assert_eq!(word("-A"), Word::AutoRecover);
    assert_eq!(word("--help"), Word::Help);
    assert_eq!(word("-H"), Word::Help);
    assert_eq!(word("--temp_dir"), Word::Plain);
    assert_eq!(word("-target"), Word::Plain);
    assert_eq!(word(""), Word::Plain);
    assert_eq!(word("C:\\Mods"), Word::Plain);
}

#[test]
fn same_text_compares_character_by_character() {
    assert!(same_text("", ""));
    assert!(same_text("--temp", "--temp"));
    assert!(same_text("grüße", "grüße"));
    assert!(!same_text("--temp", "--tems"));
    assert!(!same_text("--temp", "--tem"));
    assert!(!same_text("", "a"));
    assert!(!same_text("a", "A"));
}

#[test]
fn lowered_word_reads_the_text_as_it_stands() {
    assert_eq!(lowered_word("--target"), Word::Target);
    assert_eq!(lowered_word("--source"), Word::Source);
    assert_eq!(lowered_word("--temp"), Word::Temp);
    assert_eq!(lowered_word("--program"), Word::Program);
    assert_eq!(lowered_word("--exhaustive"), Word::Exhaustive);
    assert_eq!(lowered_word("-e"), Word::Exhaustive);
    assert_eq!(lowered_word("--dummy"), Word::Dummy);
    assert_eq!(lowered_word("-d"), Word::Dummy);
    assert_eq!(lowered_word("--autorecover"), Word::AutoRecover);
    assert_eq!(lowered_word("-a"), Word::AutoRecover);
    assert_eq!(lowered_word("--help"), Word::Help);
    assert_eq!(lowered_word("-h"), Word::Help);
    // it is handed the lower case form and lowers nothing itself
    assert_eq!(lowered_word("--TEMP"), Word::Plain);
    assert_eq!(lowered_word("-D"), Word::Plain);
    assert_eq!(lowered_word(""), Word::Plain);
    assert_eq!(lowered_word("--temp "), Word::Plain);
    assert_eq!(lowered_word("/mods"), Word::Plain);
}
