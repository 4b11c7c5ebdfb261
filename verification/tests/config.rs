use block_dispatch::config::{
    check_folder, comment_markers, get_datafilename_vec, is_gp_script_ok,
    script_mentions, script_unused_bindings, select_datafiles, stop_threshold, too_many_workers, warns_of_default_folder,
    worker_count, workers_on_this_machine,
};
use block_dispatch::error::ErrorKind;
use block_dispatch::host::stdin_isatty;

fn strings(items: &[&str]) -> Vec<String> {
    items.iter().map(|s| s.to_string()).collect()
}

#[test]
fn check_folder_passes_an_opened_folder() {
    assert_eq!(check_folder("/tmp", Ok(())), Ok(()));
}

#[test]
fn check_folder_names_path_and_cause() {
    assert_eq!(
        check_folder("/nowhere", Err("No such file or directory".to_string())),
        Err("Error opening /nowhere: No such file or directory".to_string())
    );
    assert_eq!(check_folder("", Err("".to_string())), Err("Error opening : ".to_string()));
}

#[test]
fn script_with_both_variables_is_ok() {
    assert!(is_gp_script_ok("plot DATAFILE0 title sprintf('%d', INDEX)\n"));
    assert!(is_gp_script_ok("CONTINUOUSINDEX\nDATAFILE"));
}

#[test]
fn script_without_a_variable_is_not_ok() {
    assert!(!is_gp_script_ok(""));
    assert!(!is_gp_script_ok("plot DATAFILE0\n"));
    assert!(!is_gp_script_ok("print INDEX\n"));
    assert!(!is_gp_script_ok("IND\nEX DATA FILE index datafile"));
}

#[test]
fn unused_bindings_are_listed_in_order() {
    assert_eq!(script_unused_bindings(""), strings(&["INDEX", "DATAFILE"]));
    assert_eq!(script_unused_bindings("plot DATAFILE0"), strings(&["INDEX"]));
    assert_eq!(script_unused_bindings("print INDEX"), strings(&["DATAFILE"]));
    assert_eq!(script_unused_bindings("plot DATAFILE0 t INDEX"), strings(&[]));
}

#[test]
fn script_mentions_finds_a_word_anywhere() {
    assert!(script_mentions("abc", "abc"));
    assert!(script_mentions("xabc", "abc"));
    assert!(script_mentions("abcx", "bc"));
    assert!(script_mentions("abc", ""));
    assert!(script_mentions("", ""));
    assert!(!script_mentions("", "a"));
    assert!(!script_mentions("ab", "abc"));
    assert!(!script_mentions("aab", "aba"));
    assert!(script_mentions("aaab", "aab"));
}

#[test]
fn terminal_needs_a_data_file() {
    assert_eq!(
        get_datafilename_vec(Some(strings(&["a.dat", "b.dat"])), true),
        Ok(Some(strings(&["a.dat", "b.dat"])))
    );
    assert_eq!(get_datafilename_vec(None, true), Err(ErrorKind::Configuration));
    assert_eq!(get_datafilename_vec(Some(Vec::new()), true), Err(ErrorKind::Configuration));
}

#[test]
fn piped_input_takes_no_data_file() {
    assert_eq!(get_datafilename_vec(None, false), Ok(None));
    assert_eq!(get_datafilename_vec(Some(strings(&["a.dat"])), false), Ok(None));
}

#[test]
fn select_datafiles_follows_standard_input() {
    let names = strings(&["a.dat"]);
    assert_eq!(
        select_datafiles(Some(names.clone())),
        get_datafilename_vec(Some(names), stdin_isatty())
    );
}

#[test]
fn stop_threshold_defaults_to_the_number_of_streams() {
    assert_eq!(stop_threshold(None, &None), 1);
    assert_eq!(stop_threshold(Some(0), &None), 1);
    assert_eq!(stop_threshold(None, &Some(strings(&["a", "b", "c"]))), 3);
    assert_eq!(stop_threshold(Some(0), &Some(strings(&["a", "b", "c"]))), 3);
}

#[test]
fn stop_threshold_can_be_overridden() {
    assert_eq!(stop_threshold(Some(1), &Some(strings(&["a", "b", "c"]))), 1);
    assert_eq!(stop_threshold(Some(2), &Some(strings(&["a", "b", "c"]))), 2);
    assert_eq!(stop_threshold(Some(7), &None), 7);
}

#[test]
fn empty_comment_markers_are_dropped() {
    assert_eq!(comment_markers(&strings(&["#", "", "//", ""])), strings(&["#", "//"]));
    assert_eq!(comment_markers(&strings(&["", ""])), strings(&[]));
    assert_eq!(comment_markers(&Vec::new()), strings(&[]));
}

#[test]
fn worker_count_defaults_to_the_processors() {
    assert_eq!(worker_count(None, 8), 8);
    assert_eq!(worker_count(Some(3), 8), 3);
    assert_eq!(worker_count(Some(0), 8), 0);
    assert!(too_many_workers(9, 8));
    assert!(!too_many_workers(8, 8));
    assert!(!too_many_workers(1, 8));
}

#[test]
fn workers_on_this_machine_keeps_the_request() {
    assert_eq!(workers_on_this_machine(Some(3)).0, 3);
    let (workers, warn) = workers_on_this_machine(None);
    assert!(!warn);
    assert!(workers_on_this_machine(Some(usize::MAX)).1 || workers == usize::MAX);
}

#[test]
fn default_folder_is_warned_of_when_files_stay() {
    assert!(warns_of_default_folder(false, true, true));
    assert!(warns_of_default_folder(false, false, false));
    assert!(!warns_of_default_folder(false, false, true));
    assert!(!warns_of_default_folder(true, true, false));
}
