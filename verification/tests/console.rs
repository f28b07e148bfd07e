use mtb_terrain::mtb_editor::completion::{get_most_similar, get_most_similar_alphabetically, prefix_score_of};
use mtb_terrain::mtb_editor::mtb_console::{
    accepts_char, console_toggle, load_history, try_send_command, try_unpack_array2_u32, try_update, edit_chars, get_func_args, get_last, search_arg_value, send_command,
    unpack_array2_u32, unpack_u32, unpack_usize, update, ConsoleCommand, ConsoleInput, ConsoleKeys,
    ConsoleState, Funcs, PlaneSetID, SentCommands,
};

fn input(s: &str) -> ConsoleInput {
    ConsoleInput { text: s.to_string() }
}

fn no_keys() -> ConsoleKeys {
    ConsoleKeys {
        typed: Vec::new(),
        back: false,
        delete: false,
        up: false,
        down: false,
        tab: false,
        back_repeat: false,
    }
}

fn empty_history() -> SentCommands {
    SentCommands { data: Vec::new(), index: 0 }
}

#[test]
fn funcs_from_str_reads_command_words() {
    assert_eq!(Funcs::from_str("set"), Ok(Funcs::SetID));
    assert_eq!(Funcs::from_str("npd"), Ok(Funcs::NewPlaneData));
    assert_eq!(Funcs::from_str("pd"), Ok(Funcs::PlaneData));
    assert_eq!(Funcs::from_str("wf"), Ok(Funcs::WireFrame));
    assert_eq!(Funcs::from_str("nc"), Ok(Funcs::NewColor));
    assert_eq!(Funcs::from_str("e"), Ok(Funcs::Editor));
    assert_eq!(Funcs::from_str("v"), Ok(Funcs::View));
    assert_eq!(Funcs::from_str("npd "), Err(()));
    assert_eq!(Funcs::from_str(""), Err(()));
}

#[test]
fn search_arg_value_finds_first_named_argument() {
    let args = vec!["npd", "id:7", "id:8"];
    assert_eq!(search_arg_value("id", &args), Some("7".to_string()));
    assert_eq!(search_arg_value("loc", &args), None);
    // every occurrence of `name:` is removed from the argument that holds it
    let args2 = vec!["pd", "xid:3id:4"];
    assert_eq!(search_arg_value("id", &args2), Some("x34".to_string()));
}

#[test]
fn get_func_args_lists_argument_names() {
    assert_eq!(get_func_args(&input("npd id:1")), Some(vec!["id", "loc", "dims", "subs"]));
    assert_eq!(
        get_func_args(&input("  pd")),
        Some(vec!["id", "loc", "dims", "subs", "mod", "clr", "active"])
    );
    assert_eq!(get_func_args(&input("set")), Some(vec!["id"]));
    assert_eq!(get_func_args(&input("wf")), Some(vec![""]));
    assert_eq!(get_func_args(&input("foo id:1")), None);
    assert_eq!(get_func_args(&input("   ")), None);
}

#[test]
fn get_last_offers_last_word_without_colon() {
    assert_eq!(get_last(&input("npd lo")), Some("lo".to_string()));
    assert_eq!(get_last(&input("npd id:1 di")), Some("di".to_string()));
    assert_eq!(get_last(&input("npd id:1")), None);
    assert_eq!(get_last(&input("npd")), None);
}

#[test]
fn unpack_numbers_as_parse_does() {
    assert_eq!(unpack_u32("42", "f", "p"), Some(42));
    assert_eq!(unpack_u32("+7", "f", "p"), Some(7));
    assert_eq!(unpack_u32("4294967295", "f", "p"), Some(u32::MAX));
    assert_eq!(unpack_u32("4294967296", "f", "p"), None);
    assert_eq!(unpack_u32("-1", "f", "p"), None);
    assert_eq!(unpack_u32("", "f", "p"), None);
    assert_eq!(unpack_u32("1 2", "f", "p"), None);
    assert_eq!(unpack_usize("18", "f", "p"), Some(18));
    assert_eq!(unpack_usize("x", "f", "p"), None);
}

#[test]
fn unpack_array2_u32_reads_pairs() {
    assert_eq!(unpack_array2_u32("4, 5", "f", "p"), Some([4, 5]));
    assert_eq!(unpack_array2_u32(" 7 ", "f", "p"), Some([7, 0]));
    assert_eq!(unpack_array2_u32("a,1", "f", "p"), None);
    assert_eq!(unpack_array2_u32("1,b", "f", "p"), None);
    assert_eq!(unpack_array2_u32("", "f", "p"), None);
}

#[test]
fn set_id_then_new_plane_uses_it() {
    let mut history = empty_history();
    let mut set_id = PlaneSetID(0);
    let r = send_command(&input("set id:5"), &mut history, &mut set_id, 0);
    assert!(matches!(r, ConsoleCommand::SetId(5)));
    assert_eq!(set_id.0, 5);
    assert_eq!(history.data, vec!["set id:5".to_string()]);
    assert_eq!(history.index, 0);

    let r = send_command(&input("npd loc:1,2,3 subs:4,5"), &mut history, &mut set_id, 0);
    match r {
        ConsoleCommand::NewPlane { id, loc, dims, subs } => {
            assert_eq!(id, Some(5));
            assert_eq!(loc, Some("1,2,3".to_string()));
            assert_eq!(dims, None);
            assert_eq!(subs, Some([4, 5]));
        },
        _ => panic!("expected a new plane"),
    }
    assert_eq!(history.data.len(), 2);
    assert_eq!(history.index, 1);
}

#[test]
fn plane_command_without_id_needs_one() {
    let mut history = empty_history();
    let mut set_id = PlaneSetID(0);
    let r = send_command(&input("npd dims:10,10"), &mut history, &mut set_id, 0);
    assert!(matches!(r, ConsoleCommand::NeedPlaneId));
    // the command word was valid, so it is still kept in the history
    assert_eq!(history.data, vec!["npd dims:10,10".to_string()]);
    let r = send_command(&input("pd"), &mut history, &mut set_id, 0);
    assert!(matches!(r, ConsoleCommand::NeedPlaneId));
}

#[test]
fn edit_plane_reads_its_arguments() {
    let mut history = empty_history();
    let mut set_id = PlaneSetID(0);
    let r = send_command(&input("pd id:3 subs:4,5 clr:x"), &mut history, &mut set_id, 0);
    match r {
        ConsoleCommand::EditPlane { id, loc, dims, subs, open_color } => {
            assert_eq!(id, Some(3));
            assert_eq!(loc, None);
            assert_eq!(dims, None);
            assert_eq!(subs, Some(Some([4, 5])));
            assert!(open_color);
        },
        _ => panic!("expected a plane edit"),
    }
    let r = send_command(&input("pd id:x subs:a"), &mut history, &mut set_id, 0);
    match r {
        ConsoleCommand::EditPlane { id, subs, open_color, .. } => {
            assert_eq!(id, None);
            assert_eq!(subs, Some(None));
            assert!(!open_color);
        },
        _ => panic!("expected a plane edit"),
    }
}

#[test]
fn send_command_errors_and_simple_commands() {
    let mut history = empty_history();
    let mut set_id = PlaneSetID(9);
    assert!(matches!(send_command(&input(""), &mut history, &mut set_id, 0), ConsoleCommand::NoFunction));
    assert!(matches!(send_command(&input("foo"), &mut history, &mut set_id, 0), ConsoleCommand::InvalidFunction));
    assert!(history.data.is_empty());
    assert!(matches!(send_command(&input("set"), &mut history, &mut set_id, 0), ConsoleCommand::NoIdGiven));
    assert!(matches!(send_command(&input("set id:x"), &mut history, &mut set_id, 0), ConsoleCommand::InvalidId));
    assert_eq!(set_id.0, 9);
    assert!(matches!(send_command(&input("wf"), &mut history, &mut set_id, 0), ConsoleCommand::ToggleWireFrame));
    assert!(matches!(send_command(&input("nc"), &mut history, &mut set_id, 0), ConsoleCommand::NewColor));
    assert!(matches!(send_command(&input("e"), &mut history, &mut set_id, 0), ConsoleCommand::Editor));
    assert!(matches!(send_command(&input("v"), &mut history, &mut set_id, 0), ConsoleCommand::View));
    assert_eq!(history.data.len(), 6);
    assert_eq!(history.index, 5);
}

#[test]
fn console_toggle_twice_returns_and_sends_once() {
    let (s1, send1) = console_toggle(ConsoleState::Off);
    assert_eq!((s1, send1), (ConsoleState::On, false));
    let (s2, send2) = console_toggle(s1);
    assert_eq!((s2, send2), (ConsoleState::Off, true));
}

#[test]
fn history_cursor_stays_on_commands() {
    let mut h = SentCommands { data: vec!["a".to_string(), "b".to_string()], index: 1 };
    h.move_index(5);
    assert_eq!(h.index, 1);
    h.move_index(-7);
    assert_eq!(h.index, 0);
    let mut e = empty_history();
    e.move_index(1);
    assert_eq!(e.index, 0);
    h.set_last_as_index();
    assert_eq!(h.index, 1);
}

#[test]
fn commands_to_keep_dedups_and_trims() {
    let h = SentCommands {
        data: vec!["a".to_string(), "b".to_string(), "a".to_string(), "c".to_string()],
        index: 3,
    };
    assert_eq!(h.commands_to_keep(), vec!["a".to_string(), "b".to_string(), "c".to_string()]);
    let many: Vec<String> = (0..60).map(|i| format!("c{}", i)).collect();
    let h2 = SentCommands { data: many, index: 0 };
    let kept = h2.commands_to_keep();
    assert_eq!(kept.len(), 49);
    assert_eq!(kept[0], "c11");
    assert_eq!(kept[48], "c59");
}

#[test]
fn accepts_letters_digits_and_listed_symbols() {
    assert!(accepts_char('a'));
    assert!(accepts_char('Z'));
    assert!(accepts_char('7'));
    assert!(accepts_char('é'));
    assert!(accepts_char(':'));
    assert!(accepts_char(' '));
    assert!(!accepts_char('@'));
    assert!(!accepts_char('\n'));
}

#[test]
fn edit_chars_types_and_deletes() {
    let text: Vec<char> = "ab".chars().collect();
    let typed: Vec<char> = "c@d".chars().collect();
    assert_eq!(edit_chars(&text, &typed, false, false), vec!['a', 'b', 'c', 'd']);
    assert_eq!(edit_chars(&text, &typed, true, false), vec!['a', 'b', 'c']);
    assert_eq!(edit_chars(&text, &typed, true, true), Vec::<char>::new());
    assert_eq!(edit_chars(&Vec::new(), &Vec::new(), true, false), Vec::<char>::new());
}

#[test]
fn update_types_into_console() {
    let mut h = empty_history();
    let mut c = input("np");
    let mut keys = no_keys();
    keys.typed = vec!['d', ' ', '#', 'i'];
    update(&keys, &mut h, &mut c);
    assert_eq!(c.text, "npd i");
    let mut keys = no_keys();
    keys.back = true;
    keys.back_repeat = true;
    update(&keys, &mut h, &mut c);
    assert_eq!(c.text, "npd");
    let mut keys = no_keys();
    keys.delete = true;
    update(&keys, &mut h, &mut c);
    assert_eq!(c.text, "");
}

#[test]
fn update_tab_completes_argument_names() {
    let mut h = empty_history();
    let mut c = input("npd lo");
    let mut keys = no_keys();
    keys.tab = true;
    update(&keys, &mut h, &mut c);
    assert_eq!(c.text, "npd loc");
    let mut c = input("set i");
    update(&keys, &mut h, &mut c);
    assert_eq!(c.text, "set id");
    let mut c = input("npd loc:1");
    update(&keys, &mut h, &mut c);
    assert_eq!(c.text, "npd loc:1");
    let mut c = input("zz lo");
    update(&keys, &mut h, &mut c);
    assert_eq!(c.text, "zz lo");
}

#[test]
fn update_arrows_recall_history() {
    let mut h = SentCommands { data: vec!["npd id:1".to_string(), "set id:2".to_string()], index: 1 };
    let mut c = input("");
    let mut keys = no_keys();
    keys.up = true;
    update(&keys, &mut h, &mut c);
    assert_eq!(h.index, 0);
    assert_eq!(c.text, "npd id:1");
    let mut keys = no_keys();
    keys.down = true;
    update(&keys, &mut h, &mut c);
    assert_eq!(h.index, 1);
    assert_eq!(c.text, "set id:2");
    update(&keys, &mut h, &mut c);
    assert_eq!(h.index, 1);
    assert_eq!(c.text, "set id:2");
    let mut e = empty_history();
    let mut c2 = input("keep");
    update(&keys, &mut e, &mut c2);
    assert_eq!(c2.text, "keep");
}

#[test]
fn most_similar_by_edit_distance() {
    assert_eq!(get_most_similar("lok", vec!["id", "loc", "dims"]), "loc");
    // ties go to the first candidate
    assert_eq!(get_most_similar("ab", vec!["ac", "ad"]), "ac");
    assert_eq!(get_most_similar("", vec!["abc", "de"]), "de");
}

#[test]
fn most_similar_alphabetically_sorts_stably() {
    let mut args = vec!["id", "loc", "dims", "subs"];
    assert_eq!(get_most_similar_alphabetically("lo", &mut args), "loc");
    assert_eq!(args, vec!["id", "dims", "subs", "loc"]);
    let mut args2 = vec!["id", "loc"];
    assert_eq!(get_most_similar_alphabetically("x", &mut args2), "loc");
    assert_eq!(args2, vec!["id", "loc"]);
}

#[test]
fn prefix_score_counts_shared_leading_chars() {
    let a: Vec<char> = "dims".chars().collect();
    let b: Vec<char> = "dix".chars().collect();
    assert_eq!(prefix_score_of(&a, &b), 2);
    assert_eq!(prefix_score_of(&a, &Vec::new()), 0);
}

#[test]
fn tab_after_trailing_space_cuts_by_bytes() {
    let mut h = empty_history();
    let mut c = input("npd lo ");
    let mut keys = no_keys();
    keys.tab = true;
    update(&keys, &mut h, &mut c);
    assert_eq!(c.text, "npd lloc");
}

#[test]
fn try_update_refuses_a_cut_inside_a_character() {
    let mut h = SentCommands { data: vec!["v".to_string()], index: 0 };
    let mut c = input("npd lo\u{3000}");
    let mut keys = no_keys();
    keys.tab = true;
    assert!(!try_update(&keys, &mut h, &mut c));
    assert_eq!(c.text, "npd lo\u{3000}");
    assert_eq!(h.index, 0);
    let mut c2 = input("npd lo");
    assert!(try_update(&keys, &mut h, &mut c2));
    assert_eq!(c2.text, "npd loc");
    let mut keys2 = no_keys();
    keys2.typed = vec!['x'];
    let mut c3 = input("npd lo\u{3000}");
    assert!(try_update(&keys2, &mut h, &mut c3));
    assert_eq!(c3.text, "npd lo\u{3000}x");
}

#[test]
fn try_send_command_refuses_three_subdivisions() {
    let mut h = empty_history();
    let mut set_id = PlaneSetID(0);
    assert!(try_send_command(&input("npd id:1 subs:1,2,3"), &mut h, &mut set_id, 0).is_none());
    assert!(h.data.is_empty());
    // without an id nothing is read, so nothing overflows
    let r = try_send_command(&input("npd subs:1,2,3"), &mut h, &mut set_id, 0);
    assert!(matches!(r, Some(ConsoleCommand::NeedPlaneId)));
    let r = try_send_command(&input("pd id:1 subs:1,x,3"), &mut h, &mut set_id, 0);
    match r {
        Some(ConsoleCommand::EditPlane { subs, .. }) => assert_eq!(subs, Some(None)),
        _ => panic!("expected a plane edit"),
    }
    let r = try_send_command(&input("set id:4"), &mut h, &mut set_id, 0);
    assert!(matches!(r, Some(ConsoleCommand::SetId(4))));
    assert_eq!(set_id.0, 4);
    assert_eq!(h.data.len(), 3);
}

#[test]
fn try_unpack_array2_u32_refuses_third_number() {
    assert_eq!(try_unpack_array2_u32("1,2,3", "f", "p"), None);
    assert_eq!(try_unpack_array2_u32("1, 2", "f", "p"), Some(Some([1, 2])));
    assert_eq!(try_unpack_array2_u32("1,x,3", "f", "p"), Some(None));
}

#[test]
fn up_then_down_after_send_recalls_the_command() {
    let mut h = SentCommands { data: vec!["wf".to_string(), "nc".to_string()], index: 0 };
    let mut set_id = PlaneSetID(0);
    let c = input("set id:3");
    send_command(&c, &mut h, &mut set_id, 0);
    let mut shown = input("");
    let mut up = no_keys();
    up.up = true;
    update(&up, &mut h, &mut shown);
    assert_eq!(shown.text, "nc");
    let mut down = no_keys();
    down.down = true;
    update(&down, &mut h, &mut shown);
    assert_eq!(shown.text, "set id:3");
    assert_eq!(h.index, 2);
}

#[test]
fn unreadable_third_subdivision_is_no_overflow() {
    assert_eq!(unpack_array2_u32("1,2,x", "f", "p"), None);
    assert_eq!(try_unpack_array2_u32("1,2,x", "f", "p"), Some(None));
    assert_eq!(try_unpack_array2_u32("4,4,", "f", "p"), Some(None));
    let mut h = empty_history();
    let mut set_id = PlaneSetID(0);
    let r = try_send_command(&input("npd id:1 subs:1,2,x"), &mut h, &mut set_id, 0);
    match r {
        Some(ConsoleCommand::NewPlane { id, subs, .. }) => {
            assert_eq!(id, Some(1));
            assert_eq!(subs, None);
        },
        _ => panic!("expected a new plane"),
    }
    assert_eq!(h.data, vec!["npd id:1 subs:1,2,x".to_string()]);
    let r = send_command(&input("pd id:2 subs:4,4,"), &mut h, &mut set_id, 0);
    assert!(matches!(r, ConsoleCommand::EditPlane { subs: Some(None), .. }));
}

#[test]
fn load_history_reads_json_string_lists() {
    let h = load_history("[\"set id:3\", \"npd\"]").unwrap();
    assert_eq!(h.data, vec!["set id:3".to_string(), "npd".to_string()]);
    assert_eq!(h.index, 0);
    assert_eq!(load_history("[]").unwrap().data, Vec::<String>::new());
    assert!(load_history("[1, 2]").is_none());
    assert!(load_history("not json").is_none());
    assert!(load_history("").is_none());
}

#[test]
fn history_json_writes_kept_commands() {
    let h = SentCommands {
        data: vec!["a".to_string(), "b \"q\"".to_string(), "a".to_string()],
        index: 2,
    };
    let text = h.history_json();
    assert_eq!(text, "[\"a\",\"b \\\"q\\\"\"]");
    assert_eq!(load_history(&text).unwrap().data, h.commands_to_keep());
}

#[test]
fn history_json_of_empty_history_is_empty_list() {
    assert_eq!(empty_history().history_json(), "[]");
    let many: Vec<String> = (0..60).map(|i| format!("c{}", i)).collect();
    let text = SentCommands { data: many, index: 0 }.history_json();
    let back = load_history(&text).unwrap().data;
    assert_eq!(back.len(), 49);
    assert_eq!(back[0], "c11");
}
