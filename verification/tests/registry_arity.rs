use excmd::args::ParseMode;
use excmd::completers::CompleterKind;
use excmd::defaults::default_registry;
use excmd::registry::{
    ArityError, CloseTarget, CommandCompleter, CommandRegistry, CommandSignature, Handler,
    TypableCommand,
};

fn bv(s: &str) -> Vec<u8> {
    s.as_bytes().to_vec()
}

fn plain_command(name: &str, aliases: &[&str], min: usize, max: Option<usize>) -> TypableCommand {
    TypableCommand {
        name: bv(name),
        aliases: aliases.iter().map(|a| bv(a)).collect(),
        doc: bv("a command"),
        signature: CommandSignature {
            flags: Vec::new(),
            accepts: None,
            positionals: (min, max),
            parse_mode: ParseMode::Structured,
            completer: CommandCompleter::none(),
        },
        fun: Handler::External,
    }
}

#[test]
fn default_table_builds() {
    let reg = default_registry().unwrap();
    assert!(reg.len() > 0);
}

#[test]
fn every_name_and_alias_resolves_to_its_descriptor() {
    let reg = default_registry().unwrap();
    for i in 0..reg.len() {
        let name = reg.get(i).name.clone();
        let resolved = reg.resolve(&name).expect("name must resolve");
        assert_eq!(resolved.name, name);
        for alias in reg.get(i).aliases.clone() {
            let resolved = reg.resolve(&alias).expect("alias must resolve");
            assert_eq!(resolved.name, name);
            assert!(resolved.aliases.contains(&alias));
        }
    }
}

#[test]
fn aliases_resolve_to_the_same_command() {
    let reg = default_registry().unwrap();
    assert_eq!(reg.resolve(b"q").unwrap().name, bv("quit"));
    assert_eq!(reg.resolve(b"bc!").unwrap().name, bv("buffer-close!"));
    assert!(reg.resolve(b"nosuchcommand").is_none());
}

#[test]
fn duplicate_alias_is_refused_at_construction() {
    let commands = vec![
        plain_command("first", &["x"], 0, None),
        plain_command("second", &["x"], 0, None),
    ];
    assert!(CommandRegistry::build(commands).is_err());
}

#[test]
fn duplicate_name_is_refused_at_construction() {
    let commands = vec![plain_command("same", &[], 0, None), plain_command("same", &[], 0, None)];
    assert!(CommandRegistry::build(commands).is_err());
}

#[test]
fn alias_clashing_with_name_is_refused() {
    let commands = vec![plain_command("real", &[], 0, None), plain_command("other", &["real"], 0, None)];
    assert!(CommandRegistry::build(commands).is_err());
}

#[test]
fn zero_arity_accepts_only_zero() {
    let c = plain_command("quit", &[], 0, Some(0));
    assert!(c.ensure_signature(0).is_ok());
    for n in 1..5usize {
        let e = c.ensure_signature(n).unwrap_err();
        assert!(matches!(e, ArityError::TakesNoArguments { .. }));
    }
}

#[test]
fn exact_arity_accepts_exactly_min() {
    let c = plain_command("move", &[], 2, Some(2));
    assert!(c.ensure_signature(2).is_ok());
    assert!(matches!(c.ensure_signature(1), Err(ArityError::NeedsExactly { min: 2, got: 1, .. })));
    assert!(matches!(c.ensure_signature(3), Err(ArityError::NeedsExactly { min: 2, got: 3, .. })));
}

#[test]
fn ranged_arity_accepts_the_range() {
    let c = plain_command("between", &[], 1, Some(3));
    assert!(c.ensure_signature(0).is_err());
    assert!(c.ensure_signature(1).is_ok());
    assert!(c.ensure_signature(2).is_ok());
    assert!(c.ensure_signature(3).is_ok());
    assert!(matches!(
        c.ensure_signature(4),
        Err(ArityError::NeedsBetween { min: 1, max: 3, got: 4, .. })
    ));
}

#[test]
fn unbounded_arity_accepts_arbitrarily_many() {
    let c = plain_command("open", &[], 1, None);
    assert!(matches!(c.ensure_signature(0), Err(ArityError::NeedsAtLeast { min: 1, got: 0, .. })));
    for n in [1usize, 2, 7, 1000, usize::MAX] {
        assert!(c.ensure_signature(n).is_ok());
    }
}

#[test]
fn arity_error_messages() {
    let c = plain_command("quit", &[], 0, Some(0));
    assert_eq!(c.ensure_signature(2).unwrap_err().message(), bv("`:quit` doesn't take any arguments"));
    let c = plain_command("move", &[], 1, Some(1));
    assert_eq!(
        c.ensure_signature(0).unwrap_err().message(),
        bv("`:move` needs exactly 1 argument(s), got 0")
    );
    let c = plain_command("open", &[], 1, None);
    assert_eq!(
        c.ensure_signature(0).unwrap_err().message(),
        bv("`:open` needs at least 1 argument(s), got 0")
    );
}

#[test]
fn completer_for_argument_number_falls_back() {
    let c = TypableCommand {
        name: bv("mixed"),
        aliases: Vec::new(),
        doc: bv("a command"),
        signature: CommandSignature {
            flags: Vec::new(),
            accepts: None,
            positionals: (0, None),
            parse_mode: ParseMode::Structured,
            completer: CommandCompleter::positional(vec![CompleterKind::Filename]),
        },
        fun: Handler::External,
    };
    assert_eq!(c.completer_for_argument_number(0), CompleterKind::Filename);
    assert_eq!(c.completer_for_argument_number(1), CompleterKind::NoCompletion);
    let _ = CloseTarget::Named;
}

#[test]
fn prompt_renders_name_flags_and_aliases() {
    let reg = default_registry().unwrap();
    let c = reg.resolve(b"write").unwrap();
    let help = c.prompt();
    let text = String::from_utf8(help).unwrap();
    assert!(text.starts_with("write [<flags>] <path>: "));
    assert!(text.contains("aliases:"));
    assert!(text.contains("\n    w"));
    assert!(text.contains("--no-format"));
}
