use counters::input::{choice_of_trimmed, counter_of_file, counter_path, menu_choice, name_input, Choice, NameInput};

#[test]
fn menu_choices() {
    assert_eq!(menu_choice("1\n"), Choice::Add);
    assert_eq!(menu_choice("  2 \n"), Choice::Select);
    assert_eq!(menu_choice("3"), Choice::List);
    assert_eq!(menu_choice("4\r\n"), Choice::Reset);
    assert_eq!(menu_choice("5\n"), Choice::Delete);
    assert_eq!(menu_choice("q\n"), Choice::Quit);
    assert_eq!(menu_choice("Q\n"), Choice::Quit);
}

#[test]
fn bad_menu_choices() {
    assert_eq!(menu_choice("6\n"), Choice::Bad);
    assert_eq!(menu_choice("\n"), Choice::Bad);
    assert_eq!(menu_choice("12\n"), Choice::Bad);
    assert_eq!(menu_choice("quit\n"), Choice::Bad);
    assert_eq!(choice_of_trimmed(" 1"), Choice::Bad);
}

#[test]
fn name_input_back() {
    assert_eq!(name_input("q\n"), NameInput::Back);
    assert_eq!(name_input("Q\n"), NameInput::Back);
    assert_eq!(name_input("q"), NameInput::Back);
}

#[test]
fn name_input_names() {
    assert_eq!(name_input("apples\n"), NameInput::Name("apples".to_string()));
    assert_eq!(name_input("qq\n"), NameInput::Name("qq".to_string()));
    assert_eq!(name_input("café"), NameInput::Name("café".to_string()));
}

#[test]
fn name_input_invalid() {
    assert_eq!(name_input("\n"), NameInput::Invalid);
    assert_eq!(name_input(""), NameInput::Invalid);
    assert_eq!(name_input("a/b\n"), NameInput::Invalid);
    assert_eq!(name_input("a\0b\n"), NameInput::Invalid);
}

#[test]
fn counter_paths() {
    assert_eq!(counter_path("a"), "src/counters/a.txt");
    assert_eq!(counter_path("my counter"), "src/counters/my counter.txt");
}

#[test]
fn counter_of_file_names() {
    assert_eq!(counter_of_file("a.txt"), Some("a".to_string()));
    assert_eq!(counter_of_file("two.words.txt"), Some("two.words".to_string()));
    assert_eq!(counter_of_file(".txt"), None);
    assert_eq!(counter_of_file("a.txt.bak"), None);
    assert_eq!(counter_of_file("a.TXT"), None);
    assert_eq!(counter_of_file("notes"), None);
}
