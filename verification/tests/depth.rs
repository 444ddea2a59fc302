//! Texts that take the Nix parser deep, as deep as they are let through.

use nix_agent::install::levels::MAX_LEVELS;
use nix_agent::install::nix::parser_can_take;
use nix_agent::install::try_normalize_module;

/// Normalizes `before`, then `part` as often as it is let through, then `after`.
fn deepest(before: &str, part: &str, after: &str) {
    let text = |n: usize| -> String { format!("{}{}{}", before, part.repeat(n), after) };
    let mut low = 0;
    let mut high = 3 * MAX_LEVELS;
    assert!(try_normalize_module(&text(high)).is_none(), "{} {}", before, part);
    // The most that can still be put behind a header.
    let fits = |n: usize| parser_can_take(&format!("{{ a, b, c, ... }}:\n\n{}\n", text(n)));
    while high - low > 1 {
        let middle = (low + high) / 2;
        if fits(middle) {
            low = middle;
        } else {
            high = middle;
        }
    }
    assert!(low >= MAX_LEVELS / 8, "{} {}: {}", before, part, low);
    assert!(try_normalize_module(&text(low)).is_some(), "{} {}", before, part);
}

#[test]
fn nested_lists_are_read_to_the_limit() {
    deepest("", "[", "");
    deepest("", "[ ", "1");
}

#[test]
fn selections_from_lists_are_read_to_the_limit() {
    let n = MAX_LEVELS / 2 - 20;
    let text = format!("{}{}", "[".repeat(n), "].a".repeat(n));
    assert!(try_normalize_module(&text).unwrap().is_ok());
    assert!(try_normalize_module(&text.repeat(2)).is_none());
}

#[test]
fn signs_are_read_to_the_limit() {
    deepest("", "- ", "1");
    deepest("", "!", "a");
    deepest("''a''", "- ", "1");
}

#[test]
fn operators_are_read_to_the_limit() {
    for part in ["a ++ ", "a // ", "a -> ", "a + "] {
        deepest("", part, "a");
    }
}

#[test]
fn subtractions_are_read_to_the_limit() {
    deepest("", "1- ", "a");
    deepest("", "''a''- ", "a");
}

#[test]
fn conjunctions_are_read_to_the_limit() {
    deepest("", "a && ", "a");
}

#[test]
fn products_are_read_to_the_limit() {
    deepest("", "a*", "a");
}

#[test]
fn attribute_tests_are_read_to_the_limit() {
    deepest("", "a ? b ? ", "a");
}

#[test]
fn operators_without_operands_are_read_to_the_limit() {
    for part in ["++ ", "+ ", "* ", "&& ", "|| "] {
        deepest("", part, "");
    }
}

#[test]
fn operators_with_stray_operands_are_read_to_the_limit() {
    deepest("1", "-=1", "");
    deepest("a", "?=b", "");
    deepest("a", "+ ; f a ", "");
    deepest("a", "++ ; f a ", "");
    deepest("f", " ~;a", "");
}

#[test]
fn stray_closers_are_read_to_the_limit() {
    deepest("f", " ( a = b c", "");
    deepest("f", " x.y or = b c", "");
    deepest("f", " ( a ? b c d", "");
}

#[test]
fn words_behind_no_list_are_read_to_the_limit() {
    deepest("( a ? [ b c", " d", "");
    deepest("( a ? b [ c", " d", "");
    deepest("( a ? = [ c", " d", "");
    deepest("x = [ ( ] ] + )", " d", "");
}

#[test]
fn words_behind_a_missing_attribute_are_read_to_the_limit() {
    deepest("f", " . = d e", "");
    deepest("f", " . 1 d e", "");
    deepest("f a . [", " b", "");
    deepest("f", " a . ( b c", "");
    deepest("f", " a ? = [ b ] c = ( d", "");
}

#[test]
fn lists_behind_a_missing_attribute_are_read_to_the_limit() {
    deepest("x = ", "[ a . ] b = ", "");
    deepest("x = ", "[ a . b . ] c = ", "");
    deepest("x = ", "[ a . 1 ] c = ", "");
    deepest("x = ", "[ \"a\" . ] c; ", "");
}

#[test]
fn lists_of_other_than_plain_entries_are_read_to_the_limit() {
    deepest("x = ", "[ a \"b\" ++ ", "");
    deepest("x = ", "[ a \"b${ ", "");
    deepest("x = ", "[ a ) ", "");
    deepest("x = ", "[ a = ", "");
    deepest("x = ", "[ a : ", "");
}

#[test]
fn arguments_are_read_to_the_limit() {
    for part in [" a", "[]", "\"\"", " ''''"] {
        deepest("f", part, "");
    }
}

#[test]
fn numbers_as_arguments_are_read_to_the_limit() {
    for part in [" 1", " 1.a", " .5", " 1a"] {
        deepest("f", part, "");
    }
}

#[test]
fn paths_as_arguments_are_read_to_the_limit() {
    for part in [" <.>", " ./."] {
        deepest("f", part, "");
    }
}

#[test]
fn home_paths_and_addresses_as_arguments_are_read_to_the_limit() {
    for part in [" ~/a", " a:="] {
        deepest("f", part, "");
    }
}

#[test]
fn groups_as_arguments_are_read_to_the_limit() {
    for part in ["{}", "(a)"] {
        deepest("f", part, "");
    }
}

#[test]
fn arguments_behind_comments_are_read_to_the_limit() {
    deepest("f", " # ;\n a", "");
    deepest("f", "/*;*/a", "");
    deepest("f", " a:= b", "");
    deepest("f", "/.\"\"", "");
}

#[test]
fn alternatives_are_read_to_the_limit() {
    deepest("", "a.b or ", "a");
    deepest("", "a.\"b\"or ", "a");
    deepest("a", " or", "");
}

#[test]
fn lists_in_nested_expressions_are_read_to_the_limit() {
    for open in ["a: ", "let x = ", "{a=", "with a; ", "\"${", "a.${", "if a then "] {
        deepest(&open.repeat(511), "[", "");
    }
}

#[test]
fn lists_in_nested_attributes_are_read_to_the_limit() {
    for open in ["f{\"${", "f rec{\"${", "f a.\"${"] {
        deepest(&open.repeat(511), "[", "");
    }
}

#[test]
fn lists_in_nested_interpolations_are_read_to_the_limit() {
    for open in ["f{${", "f ./a${", "f\"${"] {
        deepest(&open.repeat(511), "[", "");
    }
}

#[test]
fn arguments_in_nested_attributes_are_read_to_the_limit() {
    for open in ["f{\"${", "f a.\"${", "f{x="] {
        deepest(&open.repeat(511), " a", "");
    }
}

#[test]
fn operators_in_nested_attributes_are_read_to_the_limit() {
    for part in ["- ", "a ++ ", "! ", "a * "] {
        deepest(&"f{\"${".repeat(511), part, "");
    }
}

#[test]
fn lists_in_deep_levels_of_expressions_are_read_to_the_limit() {
    for open in ["(", "{inherit(", "{a?", "a==a>=(", "a==a>={a=", "-(", "[("] {
        deepest(&open.repeat(200), "[", "");
    }
}

#[test]
fn closed_levels_are_read_to_the_limit() {
    let n = 300;
    let text = format!("{}1{}", "a==a>={a=".repeat(n), ";}.a".repeat(n));
    assert!(try_normalize_module(&text).unwrap().is_ok());
    let text = format!("{}1{}", "a ? ${".repeat(n), "}.a".repeat(n));
    assert!(try_normalize_module(&text).is_some());
}

#[test]
fn flat_modules_are_far_from_the_limit() {
    let words: String = (0..5000).map(|i| format!("    pkgs.p-{} q{}\n", i, i)).collect();
    let lines: String = (0..5000)
        .map(|i| format!("  a{}.b.c = true; # no more words\n  x{} = lib.mkForce y;\n", i, i))
        .collect();
    let sets: String = (0..2000)
        .map(|i| format!("  s{} = {{ a = {{ }}; b = [ x \"y\" ./z ]; c = \"${{d}}\"; }};\n", i))
        .collect();
    let module = format!(
        "{{ lib, pkgs, ... }}:\n{{\n{}{}  environment.systemPackages = with pkgs; [\n{}  ];\n  ports = [ {} ];\n  groups = [ {} ];\n}}\n",
        lines,
        sets,
        words,
        "80 443 ".repeat(3000),
        "\"wheel\" ''x'' ".repeat(2000)
    );
    assert_eq!(try_normalize_module(&module).unwrap().unwrap(), module);
}
