use win_ftype::command::{EnvChange, Invocation};
use win_ftype::error::Error;
use win_ftype::resolution::{Reply, Resolution, TokenReply};
use win_ftype::store::{buffer_len, LengthReply, TemplateReply, NO_ASSOCIATION};

fn owned(items: &[&str]) -> Vec<String> {
    items.iter().map(|s| s.to_string()).collect()
}

fn units(text: &str) -> Vec<u16> {
    text.encode_utf16().collect()
}

fn invocation(program: &str, args: &[&str]) -> Invocation {
    Invocation { program: program.to_string(), args: owned(args), current_dir: None, envs: Vec::new() }
}

fn need_template(reported: u32) -> Resolution {
    Resolution::NeedTemplate { key: ".foo".to_string(), reported }
}

fn need_tokens() -> Resolution {
    Resolution::NeedTokens { template: units("\"prog.exe\" %*") }
}

#[test]
fn begin_asks_for_the_extension() {
    let inv = invocation("C:\\dir\\target.foo", &[]);
    assert_eq!(Resolution::begin(&inv), Resolution::NeedLength { key: ".foo".to_string() });
}

#[test]
fn begin_rejects_nul() {
    let inv = invocation("C:\\dir\\tar\0get.foo", &[]);
    assert_eq!(Resolution::begin(&inv), Resolution::Failed(Error::InvalidInput));
    let bare = invocation("bad\0", &[]);
    assert_eq!(Resolution::begin(&bare), Resolution::Failed(Error::InvalidInput));
}

#[test]
fn begin_fails_without_extension() {
    let inv = invocation("C:\\dir\\target", &[]);
    assert_eq!(Resolution::begin(&inv), Resolution::Failed(Error::NoExtension));
}

#[test]
fn length_reply_leads_to_the_second_query() {
    let inv = invocation("t.foo", &[]);
    let state = Resolution::begin(&inv).advance(
        Reply::Length(LengthReply::Required(14)),
        &inv,
        &None,
    );
    assert_eq!(state, need_template(14));
    assert_eq!(buffer_len(14), 15);
}

#[test]
fn missing_association_fails() {
    let inv = invocation("t.foo", &[]);
    let state = Resolution::begin(&inv).advance(Reply::Length(LengthReply::NotFound), &inv, &None);
    assert_eq!(state, Resolution::Failed(Error::NoAssociation));
    let later = need_template(14).advance(Reply::Template(TemplateReply::NotFound), &inv, &None);
    assert_eq!(later, Resolution::Failed(Error::NoAssociation));
}

#[test]
fn store_error_code_is_passed_on() {
    let inv = invocation("t.foo", &[]);
    let state = Resolution::begin(&inv).advance(
        Reply::Length(LengthReply::Failed(-2147024891)),
        &inv,
        &None,
    );
    assert_eq!(state, Resolution::Failed(Error::StoreFailure(-2147024891)));
    let later = need_template(14).advance(
        Reply::Template(TemplateReply::Failed { code: -2147024891, length: 14 }),
        &inv,
        &None,
    );
    assert_eq!(later, Resolution::Failed(Error::StoreFailure(-2147024891)));
}

#[test]
fn second_query_with_larger_length_is_inconsistent() {
    let inv = invocation("t.foo", &[]);
    let filled = TemplateReply::Filled { buffer: units("\"prog.exe\" %1 %*\0"), length: 17 };
    let state = need_template(14).advance(Reply::Template(filled), &inv, &None);
    assert_eq!(state, Resolution::Failed(Error::StoreInconsistent));
    let refused = TemplateReply::Failed { code: -2147467261, length: 17 };
    let state = need_template(14).advance(Reply::Template(refused), &inv, &None);
    assert_eq!(state, Resolution::Failed(Error::StoreInconsistent));
}

#[test]
fn filled_buffer_leads_to_the_tokenizer() {
    let inv = invocation("t.foo", &[]);
    let filled = TemplateReply::Filled { buffer: units("\"prog.exe\" %1\0"), length: 14 };
    let state = need_template(14).advance(Reply::Template(filled), &inv, &None);
    assert_eq!(state, Resolution::NeedTokens { template: units("\"prog.exe\" %1") });
}

#[test]
fn tokenizer_failure_is_passed_on() {
    let inv = invocation("t.foo", &[]);
    let state = need_tokens().advance(Reply::Tokens(TokenReply::Failed(8)), &inv, &None);
    assert_eq!(state, Resolution::Failed(Error::TokenizerFailure(8)));
}

#[test]
fn no_tokens_is_an_empty_template() {
    let inv = invocation("t.foo", &[]);
    let state = need_tokens().advance(Reply::Tokens(TokenReply::Tokens(Vec::new())), &inv, &None);
    assert_eq!(state, Resolution::Failed(Error::EmptyTemplate));
}

#[test]
fn tokens_lead_to_the_resolved_command() {
    let mut inv = invocation("t.foo", &["a", "b"]);
    inv.current_dir = Some("D:\\work".to_string());
    inv.envs = vec![
        EnvChange { name: "SET".to_string(), value: Some("v".to_string()) },
        EnvChange { name: "GONE".to_string(), value: None },
    ];
    let tokens = TokenReply::Tokens(owned(&["prog.exe", "%*", "%w"]));
    let state = need_tokens().advance(Reply::Tokens(tokens), &inv, &None);
    match state {
        Resolution::Resolved(command) => {
            assert_eq!(command.program, "prog.exe");
            assert_eq!(command.args, owned(&["a", "b", "D:\\work"]));
            assert_eq!(command.current_dir, Some("D:\\work".to_string()));
            assert_eq!(command.envs, inv.envs);
        }
        other => panic!("not resolved: {:?}", other),
    }
}

#[test]
fn unsupported_placeholder_fails_the_resolution() {
    let inv = invocation("t.foo", &[]);
    let tokens = TokenReply::Tokens(owned(&["prog.exe", "%q"]));
    let state = need_tokens().advance(Reply::Tokens(tokens), &inv, &None);
    assert_eq!(state, Resolution::Failed(Error::UnsupportedPlaceholder('q')));
}

#[test]
fn advance_with_uses_the_given_path() {
    let inv = invocation("t.foo", &["a"]);
    let tokens = TokenReply::Tokens(owned(&["prog.exe", "%1", "%*"]));
    let normalized = Some("C:\\dir\\t.foo".to_string());
    let state = need_tokens().advance_with(Reply::Tokens(tokens.clone()), &inv, &normalized, &None);
    match state {
        Resolution::Resolved(command) => {
            assert_eq!(command.program, "prog.exe");
            assert_eq!(command.args, owned(&["C:\\dir\\t.foo", "a"]));
        }
        other => panic!("not resolved: {:?}", other),
    }
    let failed = need_tokens().advance_with(Reply::Tokens(tokens), &inv, &None, &None);
    assert_eq!(failed, Resolution::Failed(Error::NormalizationFailure));
}

#[test]
fn advance_normalizes_the_program_path() {
    let inv = invocation(".", &[]);
    let tokens = TokenReply::Tokens(owned(&["prog.exe", "%1"]));
    match need_tokens().advance(Reply::Tokens(tokens.clone()), &inv, &None) {
        Resolution::Resolved(command) => {
            assert_eq!(command.args.len(), 1);
            assert_ne!(command.args[0], ".");
            assert!(std::path::Path::new(&command.args[0]).is_absolute());
        }
        other => panic!("not resolved: {:?}", other),
    }
    let missing = invocation("no/such/dir/t.foo", &[]);
    let state = need_tokens().advance(Reply::Tokens(tokens), &missing, &None);
    assert_eq!(state, Resolution::Failed(Error::NormalizationFailure));
}

#[test]
fn reply_to_another_query_changes_nothing() {
    let inv = invocation("t.foo", &[]);
    let start = Resolution::begin(&inv);
    let same = start.clone().advance(Reply::Tokens(TokenReply::Tokens(owned(&["x"]))), &inv, &None);
    assert_eq!(same, start);
    let same = start.clone().advance(Reply::Template(TemplateReply::NotFound), &inv, &None);
    assert_eq!(same, start);
    let waiting = need_template(3);
    let same = waiting.clone().advance(Reply::Length(LengthReply::Required(9)), &inv, &None);
    assert_eq!(same, waiting);
    let same = need_tokens().advance(Reply::Length(LengthReply::NotFound), &inv, &None);
    assert_eq!(same, need_tokens());
}

#[test]
fn finished_resolution_stays_as_it_is() {
    let inv = invocation("t.foo", &[]);
    let failed = Resolution::Failed(Error::NoAssociation);
    assert!(failed.is_over());
    let same = failed.clone().advance(Reply::Length(LengthReply::Required(4)), &inv, &None);
    assert_eq!(same, failed);
    let tokens = TokenReply::Tokens(owned(&["prog.exe"]));
    let done = need_tokens().advance(Reply::Tokens(tokens.clone()), &inv, &None);
    assert!(done.is_over());
    let same = done.clone().advance(Reply::Tokens(tokens), &inv, &None);
    assert_eq!(same, done);
    assert!(!need_tokens().is_over());
    assert!(!need_template(1).is_over());
    assert!(!Resolution::begin(&inv).is_over());
}

fn run(inv: &Invocation, status: i32, template: &str, tokens: &[&str], grow: u32) -> Resolution {
    let mut state = Resolution::begin(inv);
    let mut steps: u32 = 0;
    while !state.is_over() {
        steps += 1;
        assert!(steps <= 3);
        let reply = match &state {
            Resolution::NeedLength { key } => {
                assert_eq!(key, ".foo");
                Reply::Length(win_ftype::store::length_reply(status, template.len() as u32 + 1))
            }
            Resolution::NeedTemplate { key, reported } => {
                assert_eq!(key, ".foo");
                let mut buffer = vec![0u16; buffer_len(*reported) as usize];
                for (slot, unit) in buffer.iter_mut().zip(template.encode_utf16()) {
                    *slot = unit;
                }
                Reply::Template(win_ftype::store::template_reply(0, *reported + grow, buffer))
            }
            Resolution::NeedTokens { template: raw } => {
                assert_eq!(raw, &units(template));
                Reply::Tokens(TokenReply::Tokens(owned(tokens)))
            }
            _ => unreachable!(),
        };
        state = state.advance(reply, inv, &Some("C:\\here".to_string()));
    }
    state
}

#[test]
fn whole_resolution_from_start_to_command() {
    let inv = invocation("C:\\dir\\target.foo", &["a", "b", "c"]);
    let state = run(&inv, 1, "\"prog.exe\" /n %* %3 %w", &["prog.exe", "/n", "%*", "%3", "%w"], 0);
    match state {
        Resolution::Resolved(command) => {
            assert_eq!(command.program, "prog.exe");
            assert_eq!(command.args, owned(&["/n", "a", "b", "c", "b", "C:\\here"]));
            assert_eq!(command.current_dir, None);
        }
        other => panic!("not resolved: {:?}", other),
    }
}

#[test]
fn whole_resolution_without_association() {
    let inv = invocation("C:\\dir\\target.foo", &[]);
    let state = run(&inv, NO_ASSOCIATION, "", &[], 0);
    assert_eq!(state, Resolution::Failed(Error::NoAssociation));
}

#[test]
fn whole_resolution_with_changed_store() {
    let inv = invocation("C:\\dir\\target.foo", &[]);
    let state = run(&inv, 0, "prog.exe %*", &["prog.exe", "%*"], 1);
    assert_eq!(state, Resolution::Failed(Error::StoreInconsistent));
}
