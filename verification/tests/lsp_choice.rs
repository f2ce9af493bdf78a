use excmd::lsp::{workspace_command_choice, WorkspaceChoice, WorkspaceCommand};

fn bv(s: &str) -> Vec<u8> {
    s.as_bytes().to_vec()
}

fn cmd(server: u64, name: &str) -> WorkspaceCommand {
    WorkspaceCommand { server, name: bv(name) }
}

#[test]
fn no_argument_opens_the_picker() {
    let advertised = vec![cmd(1, "organizeImports")];
    assert!(matches!(workspace_command_choice(&advertised, None), WorkspaceChoice::ShowPicker));
}

#[test]
fn unique_advertisement_executes_on_its_server() {
    let advertised = vec![cmd(1, "organizeImports"), cmd(2, "rustAnalyzer.runSingle")];
    let r = workspace_command_choice(&advertised, Some(&bv("rustAnalyzer.runSingle")));
    assert!(matches!(r, WorkspaceChoice::Execute { server: 2 }));
}

#[test]
fn unknown_command_is_not_supported() {
    let advertised = vec![cmd(1, "organizeImports")];
    let r = workspace_command_choice(&advertised, Some(&bv("bogus")));
    assert!(matches!(r, WorkspaceChoice::NotSupported));
}

#[test]
fn command_advertised_twice_is_ambiguous() {
    let advertised = vec![cmd(1, "organizeImports"), cmd(2, "organizeImports")];
    let r = workspace_command_choice(&advertised, Some(&bv("organizeImports")));
    assert!(matches!(r, WorkspaceChoice::Ambiguous));
}
