use convex_typegen::names::{contains_text, fresh, numbered_name};
use convex_typegen::text::{
    decimal_string, file_name_of, is_blank, make_declared_name, make_member_name, make_words,
    pascal_case, same_text,
};

fn names(list: &[&str]) -> Vec<String> {
    list.iter().map(|s| s.to_string()).collect()
}

#[test]
fn pascal_case_joins_capitalised_words() {
    assert_eq!(pascal_case("users"), "Users");
    assert_eq!(pascal_case("get_user"), "GetUser");
    assert_eq!(pascal_case("getUser"), "GetUser");
    assert_eq!(pascal_case("user-profile.v2"), "UserProfileV2");
    assert_eq!(pascal_case("ALREADY"), "ALREADY");
    assert_eq!(pascal_case("x"), "X");
}

#[test]
fn pascal_case_of_nothing_is_nothing() {
    assert_eq!(pascal_case(""), "");
    assert_eq!(pascal_case("__"), "");
    assert_eq!(pascal_case("é"), "");
}

#[test]
fn declared_names_begin_with_a_letter() {
    assert_eq!(make_declared_name("users"), "Users");
    assert_eq!(make_declared_name("9lives"), "T9lives");
    assert_eq!(make_declared_name(""), "T");
    assert_eq!(make_declared_name("--"), "T");
}

#[test]
fn member_names_are_identifiers() {
    assert_eq!(make_member_name("name"), "name");
    assert_eq!(make_member_name("_id"), "_id");
    assert_eq!(make_member_name("_creationTime"), "_creationTime");
    assert_eq!(make_member_name("a-b"), "a_b");
    assert_eq!(make_member_name("9x"), "_9x");
    assert_eq!(make_member_name("type"), "type_");
    assert_eq!(make_member_name("self"), "self_");
    assert_eq!(make_member_name("Self"), "Self_");
    assert_eq!(make_member_name("types"), "types");
    assert_eq!(make_member_name(""), "__");
    assert_eq!(make_member_name("-"), "__");
}

#[test]
fn words_replace_what_is_no_word_character() {
    assert_eq!(make_words("1.5"), "1_5");
    assert_eq!(make_words("-2"), "_2");
    assert_eq!(make_words("ab_9"), "ab_9");
}

#[test]
fn file_names_are_what_stands_behind_the_last_separator() {
    assert_eq!(file_name_of("convex/schema.ts"), "schema.ts");
    assert_eq!(file_name_of("/a/b\\c.d.ts"), "c.d.ts");
    assert_eq!(file_name_of("schema.ts"), "schema.ts");
    assert_eq!(file_name_of("dir/"), "");
    assert_eq!(file_name_of(""), "");
}

#[test]
fn same_text_compares_characters() {
    assert!(same_text("", ""));
    assert!(same_text("query", "query"));
    assert!(!same_text("query", "Query"));
    assert!(!same_text("query", "query "));
    assert!(!same_text("a", ""));
}

#[test]
fn blank_texts() {
    assert!(is_blank(""));
    assert!(is_blank(" \n\t\r"));
    assert!(!is_blank(" a "));
    assert!(!is_blank("//"));
}

#[test]
fn decimal_numerals() {
    assert_eq!(decimal_string(0), "0");
    assert_eq!(decimal_string(7), "7");
    assert_eq!(decimal_string(10), "10");
    assert_eq!(decimal_string(1234567890), "1234567890");
    assert_eq!(decimal_string(u128::MAX), "340282366920938463463374607431768211455");
}

#[test]
fn numbered_names() {
    assert_eq!(numbered_name("Ab", 12), "Ab12");
    assert_eq!(numbered_name("", 2), "2");
}

#[test]
fn contains_text_finds_equal_texts_only() {
    let used = names(&["A", "Bc"]);
    assert!(contains_text(&used, "A"));
    assert!(contains_text(&used, "Bc"));
    assert!(!contains_text(&used, "B"));
    assert!(!contains_text(&used, "a"));
    assert!(!contains_text(&Vec::new(), ""));
}

#[test]
fn fresh_name_is_the_base_where_free() {
    assert_eq!(fresh(&Vec::new(), "A"), "A");
    assert_eq!(fresh(&names(&["A2", "B"]), "A"), "A");
}

#[test]
fn fresh_name_takes_the_least_free_number() {
    assert_eq!(fresh(&names(&["A"]), "A"), "A2");
    assert_eq!(fresh(&names(&["A", "A2"]), "A"), "A3");
    assert_eq!(fresh(&names(&["A", "A3"]), "A"), "A2");
    assert_eq!(fresh(&names(&["A3", "A2", "A"]), "A"), "A4");
}

#[test]
fn fresh_name_is_never_in_use() {
    let mut used: Vec<String> = Vec::new();
    for _ in 0..12 {
        let name = fresh(&used, "Item");
        assert!(!used.contains(&name));
        used.push(name);
    }
    assert_eq!(used[0], "Item");
    assert_eq!(used[1], "Item2");
    assert_eq!(used[11], "Item12");
}
