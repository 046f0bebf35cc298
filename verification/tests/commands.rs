use typr_lib::format::replace_commands;

#[test]
fn en_period_attaches_to_previous_word() {
    assert_eq!(replace_commands("hello period world"), "hello. world");
}

#[test]
fn en_comma_question_combo() {
    assert_eq!(
        replace_commands("hello comma is this question mark"),
        "hello, is this?",
    );
}

#[test]
fn en_new_paragraph_inserts_double_newline() {
    assert_eq!(replace_commands("first new paragraph second"), "first\n\n second");
}

#[test]
fn pt_virgula_pontofinal() {
    assert_eq!(
        replace_commands("olá vírgula mundo ponto final"),
        "olá, mundo.",
    );
}

#[test]
fn case_insensitive() {
    assert_eq!(replace_commands("hello PERIOD"), "hello.");
}

#[test]
fn does_not_match_inside_word() {
    assert_eq!(replace_commands("commando squad"), "commando squad");
}

#[test]
fn pt_ponto_final_takes_priority_over_ponto() {
    assert_eq!(replace_commands("isto ponto final"), "isto.");
}

#[test]
fn commands_empty_input_returns_empty() {
    assert_eq!(replace_commands(""), "");
}

#[test]
fn bullet_and_new_line_commands() {
    assert_eq!(replace_commands("one new line bullet two"), "one\n•  two");
}

#[test]
fn pt_exclamation_and_question_commands() {
    assert_eq!(replace_commands("olá exclamação tudo bem interrogação"), "olá! tudo bem?");
}
