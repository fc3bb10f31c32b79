use envsub::{get_patterns, replace, Delimiters};

/// Patterns for the named variables between the delimiters, with their values.
fn substitute_vars(prefix: &str, suffix: &str, vars: &[(&str, &str)], input: &str) -> String {
    let names: Vec<Vec<u8>> = vars.iter().map(|(k, _)| k.as_bytes().to_vec()).collect();
    let values: Vec<Vec<u8>> = vars.iter().map(|(_, v)| v.as_bytes().to_vec()).collect();
    let patterns = get_patterns(&names, prefix.as_bytes(), suffix.as_bytes());
    String::from_utf8(replace(&patterns, &values, input.as_bytes())).unwrap()
}

#[test]
fn output_without_replacements() {
    let expected = "foo bar baz";
    let output = substitute_vars("%", "%", &[("HOME", "/root"), ("PATH", "/bin")], expected);
    assert_eq!(output, expected);
}

#[test]
fn output_with_one_replacement() {
    let expected = "foo foo baz";
    let output = substitute_vars("%", "%", &[("VAR", "foo")], "foo %VAR% baz");
    assert_eq!(output, expected);
}

#[test]
fn multiple_inputs() {
    let table = vec![
        ("$(VAR_A)", "A"),
        ("___$(VAR_B)___", "___B___"),
        ("___$(VAR_C)", "___C"),
        ("$(VAR_A)-$(VAR_A)", "A-A"),
        ("$(VAR_A)-1", "A-1"),
        ("$(VAR_A)_$(VAR_B)_$(VAR_C)", "A_B_C"),
        ("foo\\$(VAR_C)bar", "foo\\Cbar"),
        ("foo\\\\$(VAR_C)bar", "foo\\\\Cbar"),
        ("foo\\\\\\\\$(VAR_A)bar", "foo\\\\\\\\Abar"),
        ("foo$(VAR_EMPTY)bar", "foobar"),
        ("foo$(VAR_Awhoops!", "foo$(VAR_Awhoops!"),
        ("f00__(VAR_A)__", "f00__(VAR_A)__"),
        ("$?_boo_$!", "$?_boo_$!"),
        ("$VAR_A", "$VAR_A"),
        ("$(VAR_DNE)", "$(VAR_DNE)"),
        ("$$$$$$(BIG_MONEY)", "$$$$$$(BIG_MONEY)"),
        ("$VAR_A)", "$VAR_A)"),
        ("${VAR_A}", "${VAR_A}"),
        ("$(VAR_B)_______$(A", "B_______$(A"),
        ("$(VAR_C)_______$(", "C_______$("),
        ("$(VAR_A)foobarzab$", "Afoobarzab$"),
        ("foo-\\$(VAR_A", "foo-\\$(VAR_A"),
        ("--$($($($($--", "--$($($($($--"),
        ("$($($($($--foo$(", "$($($($($--foo$("),
        ("foo0--$($($($(", "foo0--$($($($("),
        ("$(foo$$var)", "$(foo$$var)"),
    ];
    let vars = [("VAR_A", "A"), ("VAR_B", "B"), ("VAR_C", "C"), ("VAR_EMPTY", "")];
    for (input, expected_output) in table {
        let output = substitute_vars("$(", ")", &vars, input);
        assert_eq!(output, expected_output);
    }
}

#[test]
fn default_delimiters_are_percent_signs() {
    let d = Delimiters::default();
    assert_eq!(d.prefix, b"%".to_vec());
    assert_eq!(d.suffix, b"%".to_vec());
    assert_eq!(d.pattern(b"HOME"), b"%HOME%".to_vec());
}

#[test]
fn patterns_keep_variable_order() {
    let names = vec![b"B".to_vec(), b"A".to_vec(), b"".to_vec()];
    let patterns = get_patterns(&names, b"${", b"}");
    assert_eq!(patterns, vec![b"${B}".to_vec(), b"${A}".to_vec(), b"${}".to_vec()]);
}

#[test]
fn no_delimiters_give_bare_names() {
    let names = vec![b"X".to_vec()];
    assert_eq!(get_patterns(&names, b"", b""), vec![b"X".to_vec()]);
}
