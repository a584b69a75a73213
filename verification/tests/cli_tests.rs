use rot13::cli::parse_args;

fn args_of(words: &[&str]) -> Vec<String> {
    words.iter().map(|w| w.to_string()).collect()
}

#[test]
fn no_user_arguments_gives_usage() {
    let args = args_of(&["prog"]);
    assert_eq!(
        parse_args(&args),
        Err("usage: infile.txt outfile.txt -verbose")
    );
}

#[test]
fn one_user_argument_is_not_enough() {
    let args = args_of(&["prog", "in.txt"]);
    assert_eq!(parse_args(&args), Err("Not enough arguments."));
}

#[test]
fn two_user_arguments_parse_without_verbose() {
    let args = args_of(&["prog", "in.txt", "out.txt"]);
    assert_eq!(
        parse_args(&args),
        Ok(("in.txt".to_string(), "out.txt".to_string(), false))
    );
}

#[test]
fn verbose_flag_is_recognized() {
    let args = args_of(&["prog", "in.txt", "out.txt", "-verbose"]);
    assert_eq!(
        parse_args(&args),
        Ok(("in.txt".to_string(), "out.txt".to_string(), true))
    );
}

#[test]
fn unknown_third_argument_is_not_verbose() {
    let args = args_of(&["prog", "in.txt", "out.txt", "xyz"]);
    assert_eq!(
        parse_args(&args),
        Ok(("in.txt".to_string(), "out.txt".to_string(), false))
    );
}

#[test]
fn short_verbose_spelling_counts() {
    let args = args_of(&["prog", "in.txt", "out.txt", "-v"]);
    assert_eq!(
        parse_args(&args),
        Ok(("in.txt".to_string(), "out.txt".to_string(), true))
    );
}
