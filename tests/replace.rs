use envsub::replace;

fn bytes(v: &[String]) -> Vec<Vec<u8>> {
    v.iter().map(|s| s.as_bytes().to_vec()).collect()
}

fn run(keys: &[String], vals: &[String], text: &str) -> String {
    String::from_utf8(replace(&bytes(keys), &bytes(vals), text.as_bytes())).unwrap()
}

fn owned(v: &[&str]) -> Vec<String> {
    v.iter().map(|s| s.to_string()).collect()
}

#[test]
fn test_replace_without_replacements() {
    let string = "just\na\nnormal\nstring\n".to_owned();
    let keys = vec!["x".to_owned()];
    let vals = vec!["xyz".to_owned()];
    let output = run(&keys, &vals, &string);
    assert_eq!(string, output);
}

#[test]
fn test_replace_with_one_variable() {
    let string = "%VAR%".to_owned();
    let replacement = "moo".to_owned();
    let keys = vec!["%VAR%".to_owned()];
    let vals = vec![replacement.clone()];
    let output = run(&keys, &vals, &string);
    assert_eq!(output, replacement);
}

#[test]
fn test_replace_with_multiple_variables() {
    let string = "%VAR1%, %VAR2%, %VAR3%".to_owned();
    let keys = owned(&["%VAR1%", "%VAR2%", "%VAR3%"]);
    let vals = owned(&["foo", "bar", "baz"]);
    let output = run(&keys, &vals, &string);
    assert_eq!(output, vals.join(", "));
}

#[test]
fn test_replace_with_single_variable_multiple_times() {
    let string = "%VAR1%, %VAR1%, %VAR1%".to_owned();
    let keys = owned(&["%VAR1%", "%VAR2%", "%VAR3%"]);
    let vals = owned(&["foo", "bar", "baz"]);
    let output = run(&keys, &vals, &string);
    assert_eq!(output, "foo, foo, foo".to_owned());
}

#[test]
fn test_multiline_replacement() {
    let string = "%VAR3%\n%VAR1\n".to_owned();
    let keys = owned(&["%VAR1%", "%VAR2%", "%VAR3%"]);
    let vals = owned(&["foo", "bar", "baz"]);
    let output = run(&keys, &vals, &string);
    assert_eq!(output, "baz\n%VAR1\n".to_owned());
}
