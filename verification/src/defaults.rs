//! The built-in command table.
//!
//! Commands whose behavior is bookkeeping on the editor model dispatch to
//! the interpreter's own handlers; commands whose effect needs the outside
//! world (files, processes, language servers, themes, the window layout)
//! are registered as external and handed back, parsed and validated, to
//! the surrounding editor.

use vstd::prelude::*;
use vstd::string::{is_ascii, StringSliceAdditionalSpecFns};
use crate::args::{Flag, ParseMode};
use crate::bytes;
use crate::completers::CompleterKind;
use crate::registry::{
    cmd_has_key, CloseTarget, CommandCompleter, CommandRegistry, CommandSignature, Handler,
    TypableCommand,
};
use crate::shellwords::word_views;

verus! {

/// The bytes of a name or summary.
fn b(s: &str) -> (r: Vec<u8>)
    ensures
        r@ == s.spec_bytes(),
{
    bytes::to_vec(s.as_bytes())
}

/// A signature without flags.
fn sig(
    min: usize,
    max: Option<usize>,
    mode: ParseMode,
    accepts: Option<Vec<u8>>,
    completer: CommandCompleter,
) -> (r: CommandSignature)
    ensures
        r.positionals == (min, max),
{
    CommandSignature { flags: Vec::new(), accepts, positionals: (min, max), parse_mode: mode, completer }
}

/// A command without aliases.
fn cmd0(name: &str, doc: &str, signature: CommandSignature, fun: Handler) -> (r: TypableCommand)
    ensures
        r.name@ == name.spec_bytes(),
        word_views(r.aliases@) == Seq::<Seq<u8>>::empty(),
        r.signature == signature,
{
    let r = TypableCommand { name: b(name), aliases: Vec::new(), doc: b(doc), signature, fun };
    assert(word_views(r.aliases@) =~= Seq::<Seq<u8>>::empty());
    r
}

/// A command with one alias.
fn cmd1(name: &str, alias: &str, doc: &str, signature: CommandSignature, fun: Handler) -> (r:
    TypableCommand)
    ensures
        r.name@ == name.spec_bytes(),
        word_views(r.aliases@) == seq![alias.spec_bytes()],
        r.signature == signature,
{
    let mut aliases: Vec<Vec<u8>> = Vec::new();
    aliases.push(b(alias));
    let r = TypableCommand { name: b(name), aliases, doc: b(doc), signature, fun };
    assert(word_views(r.aliases@) =~= seq![alias.spec_bytes()]);
    r
}

/// A command with two aliases.
fn cmd2(name: &str, a1: &str, a2: &str, doc: &str, signature: CommandSignature, fun: Handler) -> (r:
    TypableCommand)
    ensures
        r.name@ == name.spec_bytes(),
        word_views(r.aliases@) == seq![a1.spec_bytes(), a2.spec_bytes()],
        r.signature == signature,
{
    let mut aliases: Vec<Vec<u8>> = Vec::new();
    aliases.push(b(a1));
    aliases.push(b(a2));
    let r = TypableCommand { name: b(name), aliases, doc: b(doc), signature, fun };
    assert(word_views(r.aliases@) =~= seq![a1.spec_bytes(), a2.spec_bytes()]);
    r
}

/// A command with three aliases.
fn cmd3(
    name: &str,
    a1: &str,
    a2: &str,
    a3: &str,
    doc: &str,
    signature: CommandSignature,
    fun: Handler,
) -> (r: TypableCommand)
    ensures
        r.name@ == name.spec_bytes(),
        word_views(r.aliases@) == seq![a1.spec_bytes(), a2.spec_bytes(), a3.spec_bytes()],
        r.signature == signature,
{
    let mut aliases: Vec<Vec<u8>> = Vec::new();
    aliases.push(b(a1));
    aliases.push(b(a2));
    aliases.push(b(a3));
    let r = TypableCommand { name: b(name), aliases, doc: b(doc), signature, fun };
    assert(word_views(r.aliases@) =~= seq![
        a1.spec_bytes(),
        a2.spec_bytes(),
        a3.spec_bytes(),
    ]);
    r
}

/// The shape of commands 0 to 5 of the built-in table.
pub open spec fn default_table_shape_p00(cmds: Seq<TypableCommand>) -> bool {
    &&& cmds.len() >= 6
    &&& cmds[0].name@ == "quit".spec_bytes()
    &&& word_views(cmds[0].aliases@) == seq!["q".spec_bytes()]
    &&& cmds[0].signature.positionals == (0usize, Some(0usize))
    &&& cmds[1].name@ == "quit!".spec_bytes()
    &&& word_views(cmds[1].aliases@) == seq!["q!".spec_bytes()]
    &&& cmds[1].signature.positionals == (0usize, Some(0usize))
    &&& cmds[2].name@ == "open".spec_bytes()
    &&& word_views(cmds[2].aliases@) == seq!["o".spec_bytes(), "edit".spec_bytes(), "e".spec_bytes()]
    &&& cmds[2].signature.positionals == (1usize, None::<usize>)
    &&& cmds[3].name@ == "buffer-close".spec_bytes()
    &&& word_views(cmds[3].aliases@) == seq!["bc".spec_bytes(), "bclose".spec_bytes()]
    &&& cmds[3].signature.positionals == (0usize, Some(1usize))
    &&& cmds[4].name@ == "buffer-close!".spec_bytes()
    &&& word_views(cmds[4].aliases@) == seq!["bc!".spec_bytes(), "bclose!".spec_bytes()]
    &&& cmds[4].signature.positionals == (0usize, Some(1usize))
    &&& cmds[5].name@ == "buffer-close-others".spec_bytes()
    &&& word_views(cmds[5].aliases@) == seq!["bco".spec_bytes(), "bcloseother".spec_bytes()]
    &&& cmds[5].signature.positionals == (0usize, Some(0usize))
}

/// The shape of commands 6 to 11 of the built-in table.
pub open spec fn default_table_shape_p06(cmds: Seq<TypableCommand>) -> bool {
    &&& cmds.len() >= 12
    &&& cmds[6].name@ == "buffer-close-others!".spec_bytes()
    &&& word_views(cmds[6].aliases@) == seq!["bco!".spec_bytes(), "bcloseother!".spec_bytes()]
    &&& cmds[6].signature.positionals == (0usize, Some(0usize))
    &&& cmds[7].name@ == "buffer-close-all".spec_bytes()
    &&& word_views(cmds[7].aliases@) == seq!["bca".spec_bytes(), "bcloseall".spec_bytes()]
    &&& cmds[7].signature.positionals == (0usize, Some(0usize))
    &&& cmds[8].name@ == "buffer-close-all!".spec_bytes()
    &&& word_views(cmds[8].aliases@) == seq!["bca!".spec_bytes(), "bcloseall!".spec_bytes()]
    &&& cmds[8].signature.positionals == (0usize, Some(0usize))
    &&& cmds[9].name@ == "buffer-next".spec_bytes()
    &&& word_views(cmds[9].aliases@) == seq!["bn".spec_bytes(), "bnext".spec_bytes()]
    &&& cmds[9].signature.positionals == (0usize, Some(0usize))
    &&& cmds[10].name@ == "buffer-previous".spec_bytes()
    &&& word_views(cmds[10].aliases@) == seq!["bp".spec_bytes(), "bprev".spec_bytes()]
    &&& cmds[10].signature.positionals == (0usize, Some(0usize))
    &&& cmds[11].name@ == "write".spec_bytes()
    &&& word_views(cmds[11].aliases@) == seq!["w".spec_bytes()]
    &&& cmds[11].signature.positionals == (0usize, Some(1usize))
}

/// The shape of commands 12 to 17 of the built-in table.
pub open spec fn default_table_shape_p12(cmds: Seq<TypableCommand>) -> bool {
    &&& cmds.len() >= 18
    &&& cmds[12].name@ == "write!".spec_bytes()
    &&& word_views(cmds[12].aliases@) == seq!["w!".spec_bytes()]
    &&& cmds[12].signature.positionals == (0usize, Some(1usize))
    &&& cmds[13].name@ == "new".spec_bytes()
    &&& word_views(cmds[13].aliases@) == seq!["n".spec_bytes()]
    &&& cmds[13].signature.positionals == (0usize, Some(0usize))
    &&& cmds[14].name@ == "format".spec_bytes()
    &&& word_views(cmds[14].aliases@) == seq!["fmt".spec_bytes()]
    &&& cmds[14].signature.positionals == (0usize, Some(0usize))
    &&& cmds[15].name@ == "write-all".spec_bytes()
    &&& word_views(cmds[15].aliases@) == seq!["wa".spec_bytes()]
    &&& cmds[15].signature.positionals == (0usize, Some(0usize))
    &&& cmds[16].name@ == "write-all!".spec_bytes()
    &&& word_views(cmds[16].aliases@) == seq!["wa!".spec_bytes()]
    &&& cmds[16].signature.positionals == (0usize, Some(0usize))
    &&& cmds[17].name@ == "write-quit-all".spec_bytes()
    &&& word_views(cmds[17].aliases@) == seq!["wqa".spec_bytes(), "xa".spec_bytes()]
    &&& cmds[17].signature.positionals == (0usize, Some(0usize))
}

/// The shape of commands 18 to 23 of the built-in table.
pub open spec fn default_table_shape_p18(cmds: Seq<TypableCommand>) -> bool {
    &&& cmds.len() >= 24
    &&& cmds[18].name@ == "write-quit-all!".spec_bytes()
    &&& word_views(cmds[18].aliases@) == seq!["wqa!".spec_bytes(), "xa!".spec_bytes()]
    &&& cmds[18].signature.positionals == (0usize, Some(0usize))
    &&& cmds[19].name@ == "quit-all".spec_bytes()
    &&& word_views(cmds[19].aliases@) == seq!["qa".spec_bytes()]
    &&& cmds[19].signature.positionals == (0usize, Some(0usize))
    &&& cmds[20].name@ == "quit-all!".spec_bytes()
    &&& word_views(cmds[20].aliases@) == seq!["qa!".spec_bytes()]
    &&& cmds[20].signature.positionals == (0usize, Some(0usize))
    &&& cmds[21].name@ == "cquit".spec_bytes()
    &&& word_views(cmds[21].aliases@) == seq!["cq".spec_bytes()]
    &&& cmds[21].signature.positionals == (0usize, Some(1usize))
    &&& cmds[22].name@ == "cquit!".spec_bytes()
    &&& word_views(cmds[22].aliases@) == seq!["cq!".spec_bytes()]
    &&& cmds[22].signature.positionals == (0usize, Some(1usize))
    &&& cmds[23].name@ == "theme".spec_bytes()
    &&& word_views(cmds[23].aliases@) == Seq::<Seq<u8>>::empty()
    &&& cmds[23].signature.positionals == (1usize, Some(1usize))
}

/// The shape of commands 24 to 29 of the built-in table.
pub open spec fn default_table_shape_p24(cmds: Seq<TypableCommand>) -> bool {
    &&& cmds.len() >= 30
    &&& cmds[24].name@ == "goto".spec_bytes()
    &&& word_views(cmds[24].aliases@) == seq!["g".spec_bytes()]
    &&& cmds[24].signature.positionals == (1usize, Some(1usize))
    &&& cmds[25].name@ == "get-option".spec_bytes()
    &&& word_views(cmds[25].aliases@) == seq!["get".spec_bytes()]
    &&& cmds[25].signature.positionals == (1usize, Some(1usize))
    &&& cmds[26].name@ == "set-option".spec_bytes()
    &&& word_views(cmds[26].aliases@) == seq!["set".spec_bytes()]
    &&& cmds[26].signature.positionals == (2usize, Some(2usize))
    &&& cmds[27].name@ == "toggle-option".spec_bytes()
    &&& word_views(cmds[27].aliases@) == seq!["toggle".spec_bytes()]
    &&& cmds[27].signature.positionals == (1usize, None::<usize>)
    &&& cmds[28].name@ == "echo".spec_bytes()
    &&& word_views(cmds[28].aliases@) == Seq::<Seq<u8>>::empty()
    &&& cmds[28].signature.positionals == (1usize, Some(1usize))
    &&& cmds[29].name@ == "run-shell-command".spec_bytes()
    &&& word_views(cmds[29].aliases@) == seq!["sh".spec_bytes()]
    &&& cmds[29].signature.positionals == (1usize, Some(1usize))
}

/// The shape of commands 30 to 35 of the built-in table.
pub open spec fn default_table_shape_p30(cmds: Seq<TypableCommand>) -> bool {
    &&& cmds.len() >= 36
    &&& cmds[30].name@ == "insert-output".spec_bytes()
    &&& word_views(cmds[30].aliases@) == Seq::<Seq<u8>>::empty()
    &&& cmds[30].signature.positionals == (1usize, Some(1usize))
    &&& cmds[31].name@ == "append-output".spec_bytes()
    &&& word_views(cmds[31].aliases@) == Seq::<Seq<u8>>::empty()
    &&& cmds[31].signature.positionals == (1usize, Some(1usize))
    &&& cmds[32].name@ == "pipe".spec_bytes()
    &&& word_views(cmds[32].aliases@) == Seq::<Seq<u8>>::empty()
    &&& cmds[32].signature.positionals == (1usize, Some(1usize))
    &&& cmds[33].name@ == "pipe-to".spec_bytes()
    &&& word_views(cmds[33].aliases@) == Seq::<Seq<u8>>::empty()
    &&& cmds[33].signature.positionals == (1usize, Some(1usize))
    &&& cmds[34].name@ == "reload".spec_bytes()
    &&& word_views(cmds[34].aliases@) == seq!["rl".spec_bytes()]
    &&& cmds[34].signature.positionals == (0usize, Some(0usize))
    &&& cmds[35].name@ == "change-current-directory".spec_bytes()
    &&& word_views(cmds[35].aliases@) == seq!["cd".spec_bytes()]
    &&& cmds[35].signature.positionals == (1usize, Some(1usize))
}

/// The shape of commands 36 to 41 of the built-in table.
pub open spec fn default_table_shape_p36(cmds: Seq<TypableCommand>) -> bool {
    &&& cmds.len() >= 42
    &&& cmds[36].name@ == "clear-register".spec_bytes()
    &&& word_views(cmds[36].aliases@) == Seq::<Seq<u8>>::empty()
    &&& cmds[36].signature.positionals == (0usize, Some(1usize))
    &&& cmds[37].name@ == "move".spec_bytes()
    &&& word_views(cmds[37].aliases@) == seq!["mv".spec_bytes()]
    &&& cmds[37].signature.positionals == (1usize, Some(1usize))
    &&& cmds[38].name@ == "yank-diagnostic".spec_bytes()
    &&& word_views(cmds[38].aliases@) == Seq::<Seq<u8>>::empty()
    &&& cmds[38].signature.positionals == (0usize, Some(1usize))
    &&& cmds[39].name@ == "set-language".spec_bytes()
    &&& word_views(cmds[39].aliases@) == seq!["lang".spec_bytes()]
    &&& cmds[39].signature.positionals == (1usize, Some(1usize))
    &&& cmds[40].name@ == "lsp-workspace-command".spec_bytes()
    &&& word_views(cmds[40].aliases@) == Seq::<Seq<u8>>::empty()
    &&& cmds[40].signature.positionals == (0usize, Some(0usize))
    &&& cmds[41].name@ == "write-buffer-close".spec_bytes()
    &&& word_views(cmds[41].aliases@) == seq!["wbc".spec_bytes()]
    &&& cmds[41].signature.positionals == (0usize, Some(1usize))
}

/// The shape of commands 42 to 47 of the built-in table.
pub open spec fn default_table_shape_p42(cmds: Seq<TypableCommand>) -> bool {
    &&& cmds.len() >= 48
    &&& cmds[42].name@ == "write-buffer-close!".spec_bytes()
    &&& word_views(cmds[42].aliases@) == seq!["wbc!".spec_bytes()]
    &&& cmds[42].signature.positionals == (0usize, Some(1usize))
    &&& cmds[43].name@ == "indent-style".spec_bytes()
    &&& word_views(cmds[43].aliases@) == Seq::<Seq<u8>>::empty()
    &&& cmds[43].signature.positionals == (0usize, Some(1usize))
    &&& cmds[44].name@ == "line-ending".spec_bytes()
    &&& word_views(cmds[44].aliases@) == Seq::<Seq<u8>>::empty()
    &&& cmds[44].signature.positionals == (1usize, Some(1usize))
    &&& cmds[45].name@ == "earlier".spec_bytes()
    &&& word_views(cmds[45].aliases@) == seq!["ear".spec_bytes()]
    &&& cmds[45].signature.positionals == (1usize, Some(1usize))
    &&& cmds[46].name@ == "later".spec_bytes()
    &&& word_views(cmds[46].aliases@) == seq!["lat".spec_bytes()]
    &&& cmds[46].signature.positionals == (1usize, Some(1usize))
    &&& cmds[47].name@ == "write-quit".spec_bytes()
    &&& word_views(cmds[47].aliases@) == seq!["wq".spec_bytes(), "x".spec_bytes()]
    &&& cmds[47].signature.positionals == (0usize, Some(1usize))
}

/// The shape of commands 48 to 53 of the built-in table.
pub open spec fn default_table_shape_p48(cmds: Seq<TypableCommand>) -> bool {
    &&& cmds.len() >= 54
    &&& cmds[48].name@ == "write-quit!".spec_bytes()
    &&& word_views(cmds[48].aliases@) == seq!["wq!".spec_bytes(), "x!".spec_bytes()]
    &&& cmds[48].signature.positionals == (0usize, Some(1usize))
    &&& cmds[49].name@ == "yank-join".spec_bytes()
    &&& word_views(cmds[49].aliases@) == Seq::<Seq<u8>>::empty()
    &&& cmds[49].signature.positionals == (0usize, Some(1usize))
    &&& cmds[50].name@ == "clipboard-yank".spec_bytes()
    &&& word_views(cmds[50].aliases@) == Seq::<Seq<u8>>::empty()
    &&& cmds[50].signature.positionals == (0usize, Some(0usize))
    &&& cmds[51].name@ == "clipboard-yank-join".spec_bytes()
    &&& word_views(cmds[51].aliases@) == Seq::<Seq<u8>>::empty()
    &&& cmds[51].signature.positionals == (0usize, Some(0usize))
    &&& cmds[52].name@ == "primary-clipboard-yank".spec_bytes()
    &&& word_views(cmds[52].aliases@) == Seq::<Seq<u8>>::empty()
    &&& cmds[52].signature.positionals == (0usize, Some(0usize))
    &&& cmds[53].name@ == "primary-clipboard-yank-join".spec_bytes()
    &&& word_views(cmds[53].aliases@) == Seq::<Seq<u8>>::empty()
    &&& cmds[53].signature.positionals == (0usize, Some(1usize))
}

/// The shape of commands 54 to 59 of the built-in table.
pub open spec fn default_table_shape_p54(cmds: Seq<TypableCommand>) -> bool {
    &&& cmds.len() >= 60
    &&& cmds[54].name@ == "clipboard-paste-after".spec_bytes()
    &&& word_views(cmds[54].aliases@) == Seq::<Seq<u8>>::empty()
    &&& cmds[54].signature.positionals == (0usize, Some(0usize))
    &&& cmds[55].name@ == "clipboard-paste-before".spec_bytes()
    &&& word_views(cmds[55].aliases@) == Seq::<Seq<u8>>::empty()
    &&& cmds[55].signature.positionals == (0usize, Some(0usize))
    &&& cmds[56].name@ == "clipboard-paste-replace".spec_bytes()
    &&& word_views(cmds[56].aliases@) == Seq::<Seq<u8>>::empty()
    &&& cmds[56].signature.positionals == (0usize, Some(0usize))
    &&& cmds[57].name@ == "primary-clipboard-paste-after".spec_bytes()
    &&& word_views(cmds[57].aliases@) == Seq::<Seq<u8>>::empty()
    &&& cmds[57].signature.positionals == (0usize, Some(0usize))
    &&& cmds[58].name@ == "primary-clipboard-paste-before".spec_bytes()
    &&& word_views(cmds[58].aliases@) == Seq::<Seq<u8>>::empty()
    &&& cmds[58].signature.positionals == (0usize, Some(0usize))
    &&& cmds[59].name@ == "primary-clipboard-paste-replace".spec_bytes()
    &&& word_views(cmds[59].aliases@) == Seq::<Seq<u8>>::empty()
    &&& cmds[59].signature.positionals == (0usize, Some(0usize))
}

/// The shape of commands 60 to 65 of the built-in table.
pub open spec fn default_table_shape_p60(cmds: Seq<TypableCommand>) -> bool {
    &&& cmds.len() >= 66
    &&& cmds[60].name@ == "show-clipboard-provider".spec_bytes()
    &&& word_views(cmds[60].aliases@) == Seq::<Seq<u8>>::empty()
    &&& cmds[60].signature.positionals == (0usize, Some(0usize))
    &&& cmds[61].name@ == "show-directory".spec_bytes()
    &&& word_views(cmds[61].aliases@) == seq!["pwd".spec_bytes()]
    &&& cmds[61].signature.positionals == (0usize, Some(0usize))
    &&& cmds[62].name@ == "encoding".spec_bytes()
    &&& word_views(cmds[62].aliases@) == Seq::<Seq<u8>>::empty()
    &&& cmds[62].signature.positionals == (1usize, Some(1usize))
    &&& cmds[63].name@ == "character-info".spec_bytes()
    &&& word_views(cmds[63].aliases@) == seq!["char".spec_bytes()]
    &&& cmds[63].signature.positionals == (0usize, Some(0usize))
    &&& cmds[64].name@ == "reload-all".spec_bytes()
    &&& word_views(cmds[64].aliases@) == seq!["rla".spec_bytes()]
    &&& cmds[64].signature.positionals == (0usize, Some(0usize))
    &&& cmds[65].name@ == "update".spec_bytes()
    &&& word_views(cmds[65].aliases@) == seq!["u".spec_bytes()]
    &&& cmds[65].signature.positionals == (0usize, Some(0usize))
}

/// The shape of commands 66 to 71 of the built-in table.
pub open spec fn default_table_shape_p66(cmds: Seq<TypableCommand>) -> bool {
    &&& cmds.len() >= 72
    &&& cmds[66].name@ == "lsp-restart".spec_bytes()
    &&& word_views(cmds[66].aliases@) == Seq::<Seq<u8>>::empty()
    &&& cmds[66].signature.positionals == (0usize, Some(0usize))
    &&& cmds[67].name@ == "lsp-stop".spec_bytes()
    &&& word_views(cmds[67].aliases@) == Seq::<Seq<u8>>::empty()
    &&& cmds[67].signature.positionals == (0usize, Some(0usize))
    &&& cmds[68].name@ == "tree-sitter-scopes".spec_bytes()
    &&& word_views(cmds[68].aliases@) == Seq::<Seq<u8>>::empty()
    &&& cmds[68].signature.positionals == (0usize, Some(0usize))
    &&& cmds[69].name@ == "tree-sitter-highlight-name".spec_bytes()
    &&& word_views(cmds[69].aliases@) == Seq::<Seq<u8>>::empty()
    &&& cmds[69].signature.positionals == (0usize, Some(0usize))
    &&& cmds[70].name@ == "debug-start".spec_bytes()
    &&& word_views(cmds[70].aliases@) == seq!["dbg".spec_bytes()]
    &&& cmds[70].signature.positionals == (0usize, None::<usize>)
    &&& cmds[71].name@ == "debug-remote".spec_bytes()
    &&& word_views(cmds[71].aliases@) == seq!["dbg-tcp".spec_bytes()]
    &&& cmds[71].signature.positionals == (0usize, None::<usize>)
}

/// The shape of commands 72 to 77 of the built-in table.
pub open spec fn default_table_shape_p72(cmds: Seq<TypableCommand>) -> bool {
    &&& cmds.len() >= 78
    &&& cmds[72].name@ == "debug-eval".spec_bytes()
    &&& word_views(cmds[72].aliases@) == Seq::<Seq<u8>>::empty()
    &&& cmds[72].signature.positionals == (0usize, Some(0usize))
    &&& cmds[73].name@ == "vsplit".spec_bytes()
    &&& word_views(cmds[73].aliases@) == seq!["vs".spec_bytes()]
    &&& cmds[73].signature.positionals == (0usize, Some(1usize))
    &&& cmds[74].name@ == "vsplit-new".spec_bytes()
    &&& word_views(cmds[74].aliases@) == seq!["vnew".spec_bytes()]
    &&& cmds[74].signature.positionals == (0usize, Some(0usize))
    &&& cmds[75].name@ == "hsplit".spec_bytes()
    &&& word_views(cmds[75].aliases@) == seq!["hs".spec_bytes(), "sp".spec_bytes()]
    &&& cmds[75].signature.positionals == (0usize, Some(1usize))
    &&& cmds[76].name@ == "hsplit-new".spec_bytes()
    &&& word_views(cmds[76].aliases@) == seq!["hnew".spec_bytes()]
    &&& cmds[76].signature.positionals == (0usize, Some(0usize))
    &&& cmds[77].name@ == "tutor".spec_bytes()
    &&& word_views(cmds[77].aliases@) == Seq::<Seq<u8>>::empty()
    &&& cmds[77].signature.positionals == (0usize, Some(0usize))
}

/// The shape of commands 78 to 83 of the built-in table.
pub open spec fn default_table_shape_p78(cmds: Seq<TypableCommand>) -> bool {
    &&& cmds.len() >= 84
    &&& cmds[78].name@ == "sort".spec_bytes()
    &&& word_views(cmds[78].aliases@) == Seq::<Seq<u8>>::empty()
    &&& cmds[78].signature.positionals == (0usize, Some(0usize))
    &&& cmds[79].name@ == "reflow".spec_bytes()
    &&& word_views(cmds[79].aliases@) == Seq::<Seq<u8>>::empty()
    &&& cmds[79].signature.positionals == (0usize, Some(1usize))
    &&& cmds[80].name@ == "tree-sitter-subtree".spec_bytes()
    &&& word_views(cmds[80].aliases@) == seq!["ts-subtree".spec_bytes()]
    &&& cmds[80].signature.positionals == (0usize, Some(0usize))
    &&& cmds[81].name@ == "config-reload".spec_bytes()
    &&& word_views(cmds[81].aliases@) == Seq::<Seq<u8>>::empty()
    &&& cmds[81].signature.positionals == (0usize, Some(0usize))
    &&& cmds[82].name@ == "config-open".spec_bytes()
    &&& word_views(cmds[82].aliases@) == Seq::<Seq<u8>>::empty()
    &&& cmds[82].signature.positionals == (0usize, Some(0usize))
    &&& cmds[83].name@ == "config-open-workspace".spec_bytes()
    &&& word_views(cmds[83].aliases@) == Seq::<Seq<u8>>::empty()
    &&& cmds[83].signature.positionals == (0usize, Some(0usize))
}

/// The shape of commands 84 to 87 of the built-in table.
pub open spec fn default_table_shape_p84(cmds: Seq<TypableCommand>) -> bool {
    &&& cmds.len() >= 88
    &&& cmds[84].name@ == "log-open".spec_bytes()
    &&& word_views(cmds[84].aliases@) == Seq::<Seq<u8>>::empty()
    &&& cmds[84].signature.positionals == (0usize, Some(0usize))
    &&& cmds[85].name@ == "reset-diff-change".spec_bytes()
    &&& word_views(cmds[85].aliases@) == seq!["diffget".spec_bytes(), "diffg".spec_bytes()]
    &&& cmds[85].signature.positionals == (0usize, Some(0usize))
    &&& cmds[86].name@ == "redraw".spec_bytes()
    &&& word_views(cmds[86].aliases@) == Seq::<Seq<u8>>::empty()
    &&& cmds[86].signature.positionals == (0usize, Some(0usize))
    &&& cmds[87].name@ == "read".spec_bytes()
    &&& word_views(cmds[87].aliases@) == seq!["r".spec_bytes()]
    &&& cmds[87].signature.positionals == (1usize, Some(1usize))
}

/// The exact shape of the built-in table: each command's name, aliases
/// and declared arity, in registration order.
pub open spec fn default_table_shape(cmds: Seq<TypableCommand>) -> bool {
    &&& cmds.len() == 88
    &&& default_table_shape_p00(cmds)
    &&& default_table_shape_p06(cmds)
    &&& default_table_shape_p12(cmds)
    &&& default_table_shape_p18(cmds)
    &&& default_table_shape_p24(cmds)
    &&& default_table_shape_p30(cmds)
    &&& default_table_shape_p36(cmds)
    &&& default_table_shape_p42(cmds)
    &&& default_table_shape_p48(cmds)
    &&& default_table_shape_p54(cmds)
    &&& default_table_shape_p60(cmds)
    &&& default_table_shape_p66(cmds)
    &&& default_table_shape_p72(cmds)
    &&& default_table_shape_p78(cmds)
    &&& default_table_shape_p84(cmds)
}

/// Registers commands 0 to 5 of the built-in table.
#[verifier::rlimit(100)]
fn default_commands_p00(commands: &mut Vec<TypableCommand>)
    requires
        old(commands)@.len() == 0,
    ensures
        final(commands)@.len() == 6,
        final(commands)@.subrange(0, 0) == old(commands)@.subrange(0, 0),
        default_table_shape_p00(final(commands)@),
{
    commands.push(cmd1(
        "quit",
        "q",
        "Close the current view.",
        sig(0, Some(0), ParseMode::Structured, None, CommandCompleter::none()),
        Handler::Quit { force: false },
    ));
    commands.push(cmd1(
        "quit!",
        "q!",
        "Force close the current view, ignoring unsaved changes.",
        sig(0, Some(0), ParseMode::Structured, None, CommandCompleter::none()),
        Handler::Quit { force: true },
    ));
    commands.push(cmd3(
        "open",
        "o",
        "edit",
        "e",
        "Open a file from disk into the current view.",
        sig(1, None, ParseMode::Structured, Some(b("<path>")), CommandCompleter::all(
            CompleterKind::Filename,
        )),
        Handler::External,
    ));
    commands.push(cmd2(
        "buffer-close",
        "bc",
        "bclose",
        "Close the current buffer.",
        sig(0, Some(1), ParseMode::Structured, Some(b("<buffer>")), CommandCompleter::all(
            CompleterKind::Buffer,
        )),
        Handler::BufferClose { force: false, target: CloseTarget::Named },
    ));
    commands.push(cmd2(
        "buffer-close!",
        "bc!",
        "bclose!",
        "Close the current buffer forcefully, ignoring unsaved changes.",
        sig(0, Some(1), ParseMode::Structured, Some(b("<buffer>")), CommandCompleter::all(
            CompleterKind::Buffer,
        )),
        Handler::BufferClose { force: true, target: CloseTarget::Named },
    ));
    commands.push(cmd2(
        "buffer-close-others",
        "bco",
        "bcloseother",
        "Close all buffers but the currently focused one.",
        sig(0, Some(0), ParseMode::Structured, None, CommandCompleter::none()),
        Handler::BufferClose { force: false, target: CloseTarget::Others },
    ));
    assert(default_table_shape_p00(commands@));
}

/// Registers commands 6 to 11 of the built-in table.
#[verifier::rlimit(100)]
fn default_commands_p06(commands: &mut Vec<TypableCommand>)
    requires
        old(commands)@.len() == 6,
    ensures
        final(commands)@.len() == 12,
        final(commands)@.subrange(0, 6) == old(commands)@.subrange(0, 6),
        default_table_shape_p06(final(commands)@),
{
    commands.push(cmd2(
        "buffer-close-others!",
        "bco!",
        "bcloseother!",
        "Force close all buffers but the currently focused one.",
        sig(0, Some(0), ParseMode::Structured, None, CommandCompleter::none()),
        Handler::BufferClose { force: true, target: CloseTarget::Others },
    ));
    commands.push(cmd2(
        "buffer-close-all",
        "bca",
        "bcloseall",
        "Close all buffers without quitting.",
        sig(0, Some(0), ParseMode::Structured, None, CommandCompleter::none()),
        Handler::BufferClose { force: false, target: CloseTarget::All },
    ));
    commands.push(cmd2(
        "buffer-close-all!",
        "bca!",
        "bcloseall!",
        "Force close all buffers ignoring unsaved changes without quitting.",
        sig(0, Some(0), ParseMode::Structured, None, CommandCompleter::none()),
        Handler::BufferClose { force: true, target: CloseTarget::All },
    ));
    commands.push(cmd2(
        "buffer-next",
        "bn",
        "bnext",
        "Goto next buffer.",
        sig(0, Some(0), ParseMode::Structured, None, CommandCompleter::none()),
        Handler::BufferNext,
    ));
    commands.push(cmd2(
        "buffer-previous",
        "bp",
        "bprev",
        "Goto previous buffer.",
        sig(0, Some(0), ParseMode::Structured, None, CommandCompleter::none()),
        Handler::BufferPrevious,
    ));
    let mut write_flags: Vec<Flag> = Vec::new();
    write_flags.push(Flag {
        long: b("no-format"),
        short: None,
        desc: b("skips formatting when saving buffer"),
        accepts: None,
        completer: None,
    });
    commands.push(TypableCommand {
        name: b("write"),
        aliases: {
            let mut a: Vec<Vec<u8>> = Vec::new();
            a.push(b("w"));
            a
        },
        doc: b("Write changes to disk. Accepts an optional path."),
        signature: CommandSignature {
            flags: write_flags,
            accepts: Some(b("<path>")),
            positionals: (0, Some(1)),
            parse_mode: ParseMode::Structured,
            completer: CommandCompleter::all(CompleterKind::Filename),
        },
        fun: Handler::External,
    });
    proof {
        assert(word_views(commands@.last().aliases@) =~= seq!["w".spec_bytes()]);
    }
    assert(default_table_shape_p06(commands@));
}

/// Registers commands 12 to 17 of the built-in table.
#[verifier::rlimit(100)]
fn default_commands_p12(commands: &mut Vec<TypableCommand>)
    requires
        old(commands)@.len() == 12,
    ensures
        final(commands)@.len() == 18,
        final(commands)@.subrange(0, 12) == old(commands)@.subrange(0, 12),
        default_table_shape_p12(final(commands)@),
{
    let mut force_write_flags: Vec<Flag> = Vec::new();
    force_write_flags.push(Flag {
        long: b("no-format"),
        short: None,
        desc: b("skips formatting when saving buffer"),
        accepts: None,
        completer: None,
    });
    commands.push(TypableCommand {
        name: b("write!"),
        aliases: {
            let mut a: Vec<Vec<u8>> = Vec::new();
            a.push(b("w!"));
            a
        },
        doc: b("Force write changes to disk, creating necessary subdirectories."),
        signature: CommandSignature {
            flags: force_write_flags,
            accepts: Some(b("<path>")),
            positionals: (0, Some(1)),
            parse_mode: ParseMode::Structured,
            completer: CommandCompleter::all(CompleterKind::Filename),
        },
        fun: Handler::External,
    });
    proof {
        assert(word_views(commands@.last().aliases@) =~= seq!["w!".spec_bytes()]);
    }
    commands.push(cmd1(
        "new",
        "n",
        "Create a new scratch buffer.",
        sig(0, Some(0), ParseMode::Structured, None, CommandCompleter::none()),
        Handler::NewFile,
    ));
    commands.push(cmd1(
        "format",
        "fmt",
        "Format the file using an external formatter or language server.",
        sig(0, Some(0), ParseMode::Structured, None, CommandCompleter::none()),
        Handler::External,
    ));
    commands.push(cmd1(
        "write-all",
        "wa",
        "Write changes from all buffers to disk.",
        sig(0, Some(0), ParseMode::Structured, None, CommandCompleter::none()),
        Handler::WriteAll { force: false, quit: false },
    ));
    commands.push(cmd1(
        "write-all!",
        "wa!",
        "Forcefully write changes from all buffers to disk.",
        sig(0, Some(0), ParseMode::Structured, None, CommandCompleter::none()),
        Handler::WriteAll { force: true, quit: false },
    ));
    commands.push(cmd2(
        "write-quit-all",
        "wqa",
        "xa",
        "Write changes from all buffers to disk and close all views.",
        sig(0, Some(0), ParseMode::Structured, None, CommandCompleter::none()),
        Handler::WriteAll { force: false, quit: true },
    ));
    assert(default_table_shape_p12(commands@));
}

/// Registers commands 18 to 23 of the built-in table.
#[verifier::rlimit(100)]
fn default_commands_p18(commands: &mut Vec<TypableCommand>)
    requires
        old(commands)@.len() == 18,
    ensures
        final(commands)@.len() == 24,
        final(commands)@.subrange(0, 18) == old(commands)@.subrange(0, 18),
        default_table_shape_p18(final(commands)@),
{
    commands.push(cmd2(
        "write-quit-all!",
        "wqa!",
        "xa!",
        "Write changes from all buffers to disk and close all views forcefully.",
        sig(0, Some(0), ParseMode::Structured, None, CommandCompleter::none()),
        Handler::WriteAll { force: true, quit: true },
    ));
    commands.push(cmd1(
        "quit-all",
        "qa",
        "Close all views.",
        sig(0, Some(0), ParseMode::Structured, None, CommandCompleter::none()),
        Handler::QuitAll { force: false },
    ));
    commands.push(cmd1(
        "quit-all!",
        "qa!",
        "Force close all views, ignoring unsaved changes.",
        sig(0, Some(0), ParseMode::Structured, None, CommandCompleter::none()),
        Handler::QuitAll { force: true },
    ));
    commands.push(cmd1(
        "cquit",
        "cq",
        "Quit with exit code (default 1).",
        sig(0, Some(1), ParseMode::Structured, Some(b("<exit-code>")), CommandCompleter::none()),
        Handler::CQuit { force: false },
    ));
    commands.push(cmd1(
        "cquit!",
        "cq!",
        "Force quit with exit code (default 1), ignoring unsaved changes.",
        sig(0, Some(1), ParseMode::Structured, Some(b("<exit-code>")), CommandCompleter::none()),
        Handler::CQuit { force: true },
    ));
    commands.push(cmd0(
        "theme",
        "Change the editor theme.",
        sig(1, Some(1), ParseMode::Structured, Some(b("<theme>")), {
            let mut pos: Vec<CompleterKind> = Vec::new();
            pos.push(CompleterKind::Theme);
            CommandCompleter::positional(pos)
        }),
        Handler::External,
    ));
    assert(default_table_shape_p18(commands@));
}

/// Registers commands 24 to 29 of the built-in table.
#[verifier::rlimit(100)]
fn default_commands_p24(commands: &mut Vec<TypableCommand>)
    requires
        old(commands)@.len() == 24,
    ensures
        final(commands)@.len() == 30,
        final(commands)@.subrange(0, 24) == old(commands)@.subrange(0, 24),
        default_table_shape_p24(final(commands)@),
{
    commands.push(cmd1(
        "goto",
        "g",
        "Goto line number.",
        sig(1, Some(1), ParseMode::Structured, Some(b("<line>")), CommandCompleter::none()),
        Handler::GotoLineNumber,
    ));
    commands.push(cmd1(
        "get-option",
        "get",
        "Get the current value of a config option.",
        sig(1, Some(1), ParseMode::Structured, Some(b("<key>")), CommandCompleter::all(
            CompleterKind::Setting,
        )),
        Handler::GetOption,
    ));
    commands.push(cmd1(
        "set-option",
        "set",
        "Set a config option at runtime.",
        sig(2, Some(2), ParseMode::Structured, Some(b("<key> <value>")), {
            let mut pos: Vec<CompleterKind> = Vec::new();
            pos.push(CompleterKind::Setting);
            CommandCompleter::positional(pos)
        }),
        Handler::SetOption,
    ));
    commands.push(cmd1(
        "toggle-option",
        "toggle",
        "Toggle a config option at runtime.",
        sig(1, None, ParseMode::Structured, Some(b("<key> [values]")), {
            let mut pos: Vec<CompleterKind> = Vec::new();
            pos.push(CompleterKind::Setting);
            CommandCompleter::positional(pos)
        }),
        Handler::ToggleOption,
    ));
    commands.push(cmd0(
        "echo",
        "Print the processed input to the editor status.",
        sig(1, Some(1), ParseMode::Literal, Some(b("<text>")), CommandCompleter::none()),
        Handler::Echo,
    ));
    commands.push(cmd1(
        "run-shell-command",
        "sh",
        "Run a shell command.",
        sig(1, Some(1), ParseMode::Literal, Some(b("<command>")), CommandCompleter::all(
            CompleterKind::Filename,
        )),
        Handler::External,
    ));
    assert(default_table_shape_p24(commands@));
}

/// Registers commands 30 to 35 of the built-in table.
#[verifier::rlimit(100)]
fn default_commands_p30(commands: &mut Vec<TypableCommand>)
    requires
        old(commands)@.len() == 30,
    ensures
        final(commands)@.len() == 36,
        final(commands)@.subrange(0, 30) == old(commands)@.subrange(0, 30),
        default_table_shape_p30(final(commands)@),
{
    commands.push(cmd0(
        "insert-output",
        "Run shell command, inserting output before each selection.",
        sig(1, Some(1), ParseMode::Literal, Some(b("<command>")), CommandCompleter::none()),
        Handler::External,
    ));
    commands.push(cmd0(
        "append-output",
        "Run shell command, appending output after each selection.",
        sig(1, Some(1), ParseMode::Literal, Some(b("<command>")), CommandCompleter::none()),
        Handler::External,
    ));
    commands.push(cmd0(
        "pipe",
        "Pipe each selection to the shell command.",
        sig(1, Some(1), ParseMode::Literal, Some(b("<command>")), CommandCompleter::none()),
        Handler::External,
    ));
    commands.push(cmd0(
        "pipe-to",
        "Pipe each selection to the shell command, ignoring output.",
        sig(1, Some(1), ParseMode::Literal, Some(b("<command>")), CommandCompleter::none()),
        Handler::External,
    ));
    commands.push(cmd1(
        "reload",
        "rl",
        "Discard changes and reload from the source file.",
        sig(0, Some(0), ParseMode::Structured, None, CommandCompleter::none()),
        Handler::External,
    ));
    commands.push(cmd1(
        "change-current-directory",
        "cd",
        "Change the current working directory.",
        sig(1, Some(1), ParseMode::Structured, Some(b("<directory>")), {
            let mut pos: Vec<CompleterKind> = Vec::new();
            pos.push(CompleterKind::Directory);
            CommandCompleter::positional(pos)
        }),
        Handler::External,
    ));
    assert(default_table_shape_p30(commands@));
}

/// Registers commands 36 to 41 of the built-in table.
#[verifier::rlimit(100)]
fn default_commands_p36(commands: &mut Vec<TypableCommand>)
    requires
        old(commands)@.len() == 36,
    ensures
        final(commands)@.len() == 42,
        final(commands)@.subrange(0, 36) == old(commands)@.subrange(0, 36),
        default_table_shape_p36(final(commands)@),
{
    let mut clear_flags: Vec<Flag> = Vec::new();
    clear_flags.push(Flag {
        long: b("all"),
        short: Some(b("a")),
        desc: b("clears all registers"),
        accepts: None,
        completer: None,
    });
    commands.push(TypableCommand {
        name: b("clear-register"),
        aliases: Vec::new(),
        doc: b("Clear given register."),
        signature: CommandSignature {
            flags: clear_flags,
            accepts: Some(b("<register>")),
            positionals: (0, Some(1)),
            parse_mode: ParseMode::Structured,
            completer: CommandCompleter::all(CompleterKind::Register),
        },
        fun: Handler::External,
    });
    proof {
        assert(word_views(commands@.last().aliases@) =~= Seq::<Seq<u8>>::empty());
    }
    commands.push(cmd1(
        "move",
        "mv",
        "Move the current buffer and its corresponding file to a different path.",
        sig(1, Some(1), ParseMode::Structured, Some(b("<path>")), {
            let mut pos: Vec<CompleterKind> = Vec::new();
            pos.push(CompleterKind::Filename);
            CommandCompleter::positional(pos)
        }),
        Handler::External,
    ));
    commands.push(cmd0(
        "yank-diagnostic",
        "Yank diagnostics under the primary cursor to a register.",
        sig(0, Some(1), ParseMode::Structured, Some(b("<register>")), CommandCompleter::all(
            CompleterKind::Register,
        )),
        Handler::External,
    ));
    commands.push(cmd1(
        "set-language",
        "lang",
        "Set the language of the current buffer.",
        sig(1, Some(1), ParseMode::Structured, Some(b("<language>")), {
            let mut pos: Vec<CompleterKind> = Vec::new();
            pos.push(CompleterKind::Language);
            CommandCompleter::positional(pos)
        }),
        Handler::External,
    ));
    commands.push(cmd0(
        "lsp-workspace-command",
        "Open workspace command picker.",
        sig(0, Some(0), ParseMode::Structured, None, {
            let mut pos: Vec<CompleterKind> = Vec::new();
            pos.push(CompleterKind::LspWorkspaceCommand);
            CommandCompleter::positional(pos)
        }),
        Handler::External,
    ));
    commands.push(cmd1(
        "write-buffer-close",
        "wbc",
        "Write changes to disk and close the buffer. Accepts an optional path.",
        sig(0, Some(1), ParseMode::Structured, Some(b("<path>")), {
            let mut pos: Vec<CompleterKind> = Vec::new();
            pos.push(CompleterKind::Filename);
            CommandCompleter::positional(pos)
        }),
        Handler::External,
    ));
    assert(default_table_shape_p36(commands@));
}

/// Registers commands 42 to 47 of the built-in table.
#[verifier::rlimit(100)]
fn default_commands_p42(commands: &mut Vec<TypableCommand>)
    requires
        old(commands)@.len() == 42,
    ensures
        final(commands)@.len() == 48,
        final(commands)@.subrange(0, 42) == old(commands)@.subrange(0, 42),
        default_table_shape_p42(final(commands)@),
{
    commands.push(cmd1(
        "write-buffer-close!",
        "wbc!",
        "Force write changes to disk and close the buffer.",
        sig(0, Some(1), ParseMode::Structured, Some(b("<path>")), {
            let mut pos: Vec<CompleterKind> = Vec::new();
            pos.push(CompleterKind::Filename);
            CommandCompleter::positional(pos)
        }),
        Handler::External,
    ));
    commands.push(cmd0(
        "indent-style",
        "Set the indentation style for editing.",
        sig(0, Some(1), ParseMode::Structured, Some(b("<indent>")), CommandCompleter::none()),
        Handler::External,
    ));
    commands.push(cmd0(
        "line-ending",
        "Set the document's default line ending.",
        sig(1, Some(1), ParseMode::Structured, Some(b("<line-ending>")), CommandCompleter::none()),
        Handler::External,
    ));
    commands.push(cmd1(
        "earlier",
        "ear",
        "Jump back to an earlier point in edit history.",
        sig(1, Some(1), ParseMode::Structured, Some(b("<steps>")), CommandCompleter::none()),
        Handler::External,
    ));
    commands.push(cmd1(
        "later",
        "lat",
        "Jump to a later point in edit history.",
        sig(1, Some(1), ParseMode::Structured, Some(b("<steps>")), CommandCompleter::none()),
        Handler::External,
    ));
    commands.push(cmd2(
        "write-quit",
        "wq",
        "x",
        "Write changes to disk and close the current view.",
        sig(0, Some(1), ParseMode::Structured, Some(b("<path>")), {
            let mut pos: Vec<CompleterKind> = Vec::new();
            pos.push(CompleterKind::Filename);
            CommandCompleter::positional(pos)
        }),
        Handler::External,
    ));
    assert(default_table_shape_p42(commands@));
}

/// Registers commands 48 to 53 of the built-in table.
#[verifier::rlimit(100)]
fn default_commands_p48(commands: &mut Vec<TypableCommand>)
    requires
        old(commands)@.len() == 48,
    ensures
        final(commands)@.len() == 54,
        final(commands)@.subrange(0, 48) == old(commands)@.subrange(0, 48),
        default_table_shape_p48(final(commands)@),
{
    commands.push(cmd2(
        "write-quit!",
        "wq!",
        "x!",
        "Write changes to disk and close the current view forcefully.",
        sig(0, Some(1), ParseMode::Structured, Some(b("<path>")), {
            let mut pos: Vec<CompleterKind> = Vec::new();
            pos.push(CompleterKind::Filename);
            CommandCompleter::positional(pos)
        }),
        Handler::External,
    ));
    commands.push(cmd0(
        "yank-join",
        "Yank joined selections, with an optional separator.",
        sig(0, Some(1), ParseMode::Structured, Some(b("<separator>")), CommandCompleter::none()),
        Handler::External,
    ));
    commands.push(cmd0(
        "clipboard-yank",
        "Yank main selection into the system clipboard.",
        sig(0, Some(0), ParseMode::Structured, None, CommandCompleter::none()),
        Handler::External,
    ));
    commands.push(cmd0(
        "clipboard-yank-join",
        "Yank joined selections into the system clipboard.",
        sig(0, Some(0), ParseMode::Structured, None, CommandCompleter::none()),
        Handler::External,
    ));
    commands.push(cmd0(
        "primary-clipboard-yank",
        "Yank main selection into the primary clipboard.",
        sig(0, Some(0), ParseMode::Structured, None, CommandCompleter::none()),
        Handler::External,
    ));
    commands.push(cmd0(
        "primary-clipboard-yank-join",
        "Yank joined selections into the primary clipboard.",
        sig(0, Some(1), ParseMode::Structured, Some(b("<separator>")), CommandCompleter::none()),
        Handler::External,
    ));
    assert(default_table_shape_p48(commands@));
}

/// Registers commands 54 to 59 of the built-in table.
#[verifier::rlimit(100)]
fn default_commands_p54(commands: &mut Vec<TypableCommand>)
    requires
        old(commands)@.len() == 54,
    ensures
        final(commands)@.len() == 60,
        final(commands)@.subrange(0, 54) == old(commands)@.subrange(0, 54),
        default_table_shape_p54(final(commands)@),
{
    commands.push(cmd0(
        "clipboard-paste-after",
        "Paste system clipboard after selections.",
        sig(0, Some(0), ParseMode::Structured, None, CommandCompleter::none()),
        Handler::External,
    ));
    commands.push(cmd0(
        "clipboard-paste-before",
        "Paste system clipboard before selections.",
        sig(0, Some(0), ParseMode::Structured, None, CommandCompleter::none()),
        Handler::External,
    ));
    commands.push(cmd0(
        "clipboard-paste-replace",
        "Replace selections with content of the system clipboard.",
        sig(0, Some(0), ParseMode::Structured, None, CommandCompleter::none()),
        Handler::External,
    ));
    commands.push(cmd0(
        "primary-clipboard-paste-after",
        "Paste primary clipboard after selections.",
        sig(0, Some(0), ParseMode::Structured, None, CommandCompleter::none()),
        Handler::External,
    ));
    commands.push(cmd0(
        "primary-clipboard-paste-before",
        "Paste primary clipboard before selections.",
        sig(0, Some(0), ParseMode::Structured, None, CommandCompleter::none()),
        Handler::External,
    ));
    commands.push(cmd0(
        "primary-clipboard-paste-replace",
        "Replace selections with content of the primary clipboard.",
        sig(0, Some(0), ParseMode::Structured, None, CommandCompleter::none()),
        Handler::External,
    ));
    assert(default_table_shape_p54(commands@));
}

/// Registers commands 60 to 65 of the built-in table.
#[verifier::rlimit(100)]
fn default_commands_p60(commands: &mut Vec<TypableCommand>)
    requires
        old(commands)@.len() == 60,
    ensures
        final(commands)@.len() == 66,
        final(commands)@.subrange(0, 60) == old(commands)@.subrange(0, 60),
        default_table_shape_p60(final(commands)@),
{
    commands.push(cmd0(
        "show-clipboard-provider",
        "Show clipboard provider name in the status bar.",
        sig(0, Some(0), ParseMode::Structured, None, CommandCompleter::none()),
        Handler::External,
    ));
    commands.push(cmd1(
        "show-directory",
        "pwd",
        "Show the current working directory.",
        sig(0, Some(0), ParseMode::Structured, None, CommandCompleter::none()),
        Handler::External,
    ));
    commands.push(cmd0(
        "encoding",
        "Set encoding, or show it based on the input manifest.",
        sig(1, Some(1), ParseMode::Structured, Some(b("<encoding>")), CommandCompleter::none()),
        Handler::External,
    ));
    commands.push(cmd1(
        "character-info",
        "char",
        "Get info about the character under the primary cursor.",
        sig(0, Some(0), ParseMode::Structured, None, CommandCompleter::none()),
        Handler::External,
    ));
    commands.push(cmd1(
        "reload-all",
        "rla",
        "Discard changes and reload all documents from their source files.",
        sig(0, Some(0), ParseMode::Structured, None, CommandCompleter::none()),
        Handler::External,
    ));
    commands.push(cmd1(
        "update",
        "u",
        "Write changes only if the buffer has been modified.",
        sig(0, Some(0), ParseMode::Structured, None, CommandCompleter::none()),
        Handler::External,
    ));
    assert(default_table_shape_p60(commands@));
}

/// Registers commands 66 to 71 of the built-in table.
#[verifier::rlimit(100)]
fn default_commands_p66(commands: &mut Vec<TypableCommand>)
    requires
        old(commands)@.len() == 66,
    ensures
        final(commands)@.len() == 72,
        final(commands)@.subrange(0, 66) == old(commands)@.subrange(0, 66),
        default_table_shape_p66(final(commands)@),
{
    commands.push(cmd0(
        "lsp-restart",
        "Restarts the language servers used by the current document.",
        sig(0, Some(0), ParseMode::Structured, None, CommandCompleter::none()),
        Handler::External,
    ));
    commands.push(cmd0(
        "lsp-stop",
        "Stops the language servers used by the current document.",
        sig(0, Some(0), ParseMode::Structured, None, CommandCompleter::none()),
        Handler::External,
    ));
    commands.push(cmd0(
        "tree-sitter-scopes",
        "Display tree sitter scopes, primarily for theming and development.",
        sig(0, Some(0), ParseMode::Structured, None, CommandCompleter::none()),
        Handler::External,
    ));
    commands.push(cmd0(
        "tree-sitter-highlight-name",
        "Display name of the highlight scope under the cursor.",
        sig(0, Some(0), ParseMode::Structured, None, CommandCompleter::none()),
        Handler::External,
    ));
    commands.push(cmd1(
        "debug-start",
        "dbg",
        "Start a debug session from a given template with given parameters.",
        sig(0, None, ParseMode::Structured, Some(b("<params>")), CommandCompleter::none()),
        Handler::External,
    ));
    commands.push(cmd1(
        "debug-remote",
        "dbg-tcp",
        "Connect to a debug adapter by TCP address.",
        sig(0, None, ParseMode::Structured, Some(b("<address>")), CommandCompleter::none()),
        Handler::External,
    ));
    assert(default_table_shape_p66(commands@));
}

/// Registers commands 72 to 77 of the built-in table.
#[verifier::rlimit(100)]
fn default_commands_p72(commands: &mut Vec<TypableCommand>)
    requires
        old(commands)@.len() == 72,
    ensures
        final(commands)@.len() == 78,
        final(commands)@.subrange(0, 72) == old(commands)@.subrange(0, 72),
        default_table_shape_p72(final(commands)@),
{
    commands.push(cmd0(
        "debug-eval",
        "Evaluate expression in current debug context.",
        sig(0, Some(0), ParseMode::Structured, None, CommandCompleter::none()),
        Handler::External,
    ));
    commands.push(cmd1(
        "vsplit",
        "vs",
        "Open the file in a vertical split.",
        sig(0, Some(1), ParseMode::Structured, Some(b("<path>")), CommandCompleter::all(
            CompleterKind::Filename,
        )),
        Handler::External,
    ));
    commands.push(cmd1(
        "vsplit-new",
        "vnew",
        "Open a scratch buffer in a vertical split.",
        sig(0, Some(0), ParseMode::Structured, None, CommandCompleter::none()),
        Handler::External,
    ));
    commands.push(cmd2(
        "hsplit",
        "hs",
        "sp",
        "Open the file in a horizontal split.",
        sig(0, Some(1), ParseMode::Structured, Some(b("<path>")), CommandCompleter::all(
            CompleterKind::Filename,
        )),
        Handler::External,
    ));
    commands.push(cmd1(
        "hsplit-new",
        "hnew",
        "Open a scratch buffer in a horizontal split.",
        sig(0, Some(0), ParseMode::Structured, None, CommandCompleter::none()),
        Handler::External,
    ));
    commands.push(cmd0(
        "tutor",
        "Open the tutorial.",
        sig(0, Some(0), ParseMode::Structured, None, CommandCompleter::none()),
        Handler::External,
    ));
    assert(default_table_shape_p72(commands@));
}

/// Registers commands 78 to 83 of the built-in table.
#[verifier::rlimit(100)]
fn default_commands_p78(commands: &mut Vec<TypableCommand>)
    requires
        old(commands)@.len() == 78,
    ensures
        final(commands)@.len() == 84,
        final(commands)@.subrange(0, 78) == old(commands)@.subrange(0, 78),
        default_table_shape_p78(final(commands)@),
{
    let mut sort_flags: Vec<Flag> = Vec::new();
    sort_flags.push(Flag {
        long: b("reverse"),
        short: Some(b("r")),
        desc: b("reverses sort order"),
        accepts: None,
        completer: None,
    });
    commands.push(TypableCommand {
        name: b("sort"),
        aliases: Vec::new(),
        doc: b("Sort ranges in selection."),
        signature: CommandSignature {
            flags: sort_flags,
            accepts: None,
            positionals: (0, Some(0)),
            parse_mode: ParseMode::Structured,
            completer: CommandCompleter::none(),
        },
        fun: Handler::External,
    });
    proof {
        assert(word_views(commands@.last().aliases@) =~= Seq::<Seq<u8>>::empty());
    }
    commands.push(cmd0(
        "reflow",
        "Hard-wrap the current selection of lines to a given width.",
        sig(0, Some(1), ParseMode::Structured, Some(b("<width>")), CommandCompleter::none()),
        Handler::External,
    ));
    commands.push(cmd1(
        "tree-sitter-subtree",
        "ts-subtree",
        "Display the smallest tree-sitter subtree that spans the primary selection.",
        sig(0, Some(0), ParseMode::Structured, None, CommandCompleter::none()),
        Handler::External,
    ));
    commands.push(cmd0(
        "config-reload",
        "Refresh user config.",
        sig(0, Some(0), ParseMode::Structured, None, CommandCompleter::none()),
        Handler::External,
    ));
    commands.push(cmd0(
        "config-open",
        "Open the user config file.",
        sig(0, Some(0), ParseMode::Structured, None, CommandCompleter::none()),
        Handler::External,
    ));
    commands.push(cmd0(
        "config-open-workspace",
        "Open the workspace config file.",
        sig(0, Some(0), ParseMode::Structured, None, CommandCompleter::none()),
        Handler::External,
    ));
    assert(default_table_shape_p78(commands@));
}

/// Registers commands 84 to 87 of the built-in table.
#[verifier::rlimit(100)]
fn default_commands_p84(commands: &mut Vec<TypableCommand>)
    requires
        old(commands)@.len() == 84,
    ensures
        final(commands)@.len() == 88,
        final(commands)@.subrange(0, 84) == old(commands)@.subrange(0, 84),
        default_table_shape_p84(final(commands)@),
{
    commands.push(cmd0(
        "log-open",
        "Open the editor log file.",
        sig(0, Some(0), ParseMode::Structured, None, CommandCompleter::none()),
        Handler::External,
    ));
    commands.push(cmd2(
        "reset-diff-change",
        "diffget",
        "diffg",
        "Reset the diff change at the cursor position.",
        sig(0, Some(0), ParseMode::Structured, None, CommandCompleter::none()),
        Handler::External,
    ));
    commands.push(cmd0(
        "redraw",
        "Clear and re-render the whole UI.",
        sig(0, Some(0), ParseMode::Structured, None, CommandCompleter::none()),
        Handler::External,
    ));
    commands.push(cmd1(
        "read",
        "r",
        "Load a file into the buffer.",
        sig(1, Some(1), ParseMode::Structured, Some(b("<path>")), {
            let mut pos: Vec<CompleterKind> = Vec::new();
            pos.push(CompleterKind::Filename);
            CommandCompleter::positional(pos)
        }),
        Handler::External,
    ));
    assert(default_table_shape_p84(commands@));
}

/// Appending further commands keeps the shape of commands 0 to 5.
proof fn lemma_shape_p00_extends(a: Seq<TypableCommand>, b: Seq<TypableCommand>)
    requires
        default_table_shape_p00(a),
        b.len() >= a.len(),
        b.subrange(0, a.len() as int) == a.subrange(0, a.len() as int),
    ensures
        default_table_shape_p00(b),
{
    let n = a.len() as int;
    assert forall|k: int| 0 <= k < n implies b[k] == a[k] by {
        assert(b.subrange(0, n) == a.subrange(0, n));
        assert(b.subrange(0, n)[k] == b[k]);
        assert(a.subrange(0, n)[k] == a[k]);
    }
    assert(b[0] == a[0]);
    assert(b[1] == a[1]);
    assert(b[2] == a[2]);
    assert(b[3] == a[3]);
    assert(b[4] == a[4]);
    assert(b[5] == a[5]);
}

/// Appending further commands keeps the shape of commands 6 to 11.
proof fn lemma_shape_p06_extends(a: Seq<TypableCommand>, b: Seq<TypableCommand>)
    requires
        default_table_shape_p06(a),
        b.len() >= a.len(),
        b.subrange(0, a.len() as int) == a.subrange(0, a.len() as int),
    ensures
        default_table_shape_p06(b),
{
    let n = a.len() as int;
    assert forall|k: int| 0 <= k < n implies b[k] == a[k] by {
        assert(b.subrange(0, n) == a.subrange(0, n));
        assert(b.subrange(0, n)[k] == b[k]);
        assert(a.subrange(0, n)[k] == a[k]);
    }
    assert(b[6] == a[6]);
    assert(b[7] == a[7]);
    assert(b[8] == a[8]);
    assert(b[9] == a[9]);
    assert(b[10] == a[10]);
    assert(b[11] == a[11]);
}

/// Appending further commands keeps the shape of commands 12 to 17.
proof fn lemma_shape_p12_extends(a: Seq<TypableCommand>, b: Seq<TypableCommand>)
    requires
        default_table_shape_p12(a),
        b.len() >= a.len(),
        b.subrange(0, a.len() as int) == a.subrange(0, a.len() as int),
    ensures
        default_table_shape_p12(b),
{
    let n = a.len() as int;
    assert forall|k: int| 0 <= k < n implies b[k] == a[k] by {
        assert(b.subrange(0, n) == a.subrange(0, n));
        assert(b.subrange(0, n)[k] == b[k]);
        assert(a.subrange(0, n)[k] == a[k]);
    }
    assert(b[12] == a[12]);
    assert(b[13] == a[13]);
    assert(b[14] == a[14]);
    assert(b[15] == a[15]);
    assert(b[16] == a[16]);
    assert(b[17] == a[17]);
}

/// Appending further commands keeps the shape of commands 18 to 23.
proof fn lemma_shape_p18_extends(a: Seq<TypableCommand>, b: Seq<TypableCommand>)
    requires
        default_table_shape_p18(a),
        b.len() >= a.len(),
        b.subrange(0, a.len() as int) == a.subrange(0, a.len() as int),
    ensures
        default_table_shape_p18(b),
{
    let n = a.len() as int;
    assert forall|k: int| 0 <= k < n implies b[k] == a[k] by {
        assert(b.subrange(0, n) == a.subrange(0, n));
        assert(b.subrange(0, n)[k] == b[k]);
        assert(a.subrange(0, n)[k] == a[k]);
    }
    assert(b[18] == a[18]);
    assert(b[19] == a[19]);
    assert(b[20] == a[20]);
    assert(b[21] == a[21]);
    assert(b[22] == a[22]);
    assert(b[23] == a[23]);
}

/// Appending further commands keeps the shape of commands 24 to 29.
proof fn lemma_shape_p24_extends(a: Seq<TypableCommand>, b: Seq<TypableCommand>)
    requires
        default_table_shape_p24(a),
        b.len() >= a.len(),
        b.subrange(0, a.len() as int) == a.subrange(0, a.len() as int),
    ensures
        default_table_shape_p24(b),
{
    let n = a.len() as int;
    assert forall|k: int| 0 <= k < n implies b[k] == a[k] by {
        assert(b.subrange(0, n) == a.subrange(0, n));
        assert(b.subrange(0, n)[k] == b[k]);
        assert(a.subrange(0, n)[k] == a[k]);
    }
    assert(b[24] == a[24]);
    assert(b[25] == a[25]);
    assert(b[26] == a[26]);
    assert(b[27] == a[27]);
    assert(b[28] == a[28]);
    assert(b[29] == a[29]);
}

/// Appending further commands keeps the shape of commands 30 to 35.
proof fn lemma_shape_p30_extends(a: Seq<TypableCommand>, b: Seq<TypableCommand>)
    requires
        default_table_shape_p30(a),
        b.len() >= a.len(),
        b.subrange(0, a.len() as int) == a.subrange(0, a.len() as int),
    ensures
        default_table_shape_p30(b),
{
    let n = a.len() as int;
    assert forall|k: int| 0 <= k < n implies b[k] == a[k] by {
        assert(b.subrange(0, n) == a.subrange(0, n));
        assert(b.subrange(0, n)[k] == b[k]);
        assert(a.subrange(0, n)[k] == a[k]);
    }
    assert(b[30] == a[30]);
    assert(b[31] == a[31]);
    assert(b[32] == a[32]);
    assert(b[33] == a[33]);
    assert(b[34] == a[34]);
    assert(b[35] == a[35]);
}

/// Appending further commands keeps the shape of commands 36 to 41.
proof fn lemma_shape_p36_extends(a: Seq<TypableCommand>, b: Seq<TypableCommand>)
    requires
        default_table_shape_p36(a),
        b.len() >= a.len(),
        b.subrange(0, a.len() as int) == a.subrange(0, a.len() as int),
    ensures
        default_table_shape_p36(b),
{
    let n = a.len() as int;
    assert forall|k: int| 0 <= k < n implies b[k] == a[k] by {
        assert(b.subrange(0, n) == a.subrange(0, n));
        assert(b.subrange(0, n)[k] == b[k]);
        assert(a.subrange(0, n)[k] == a[k]);
    }
    assert(b[36] == a[36]);
    assert(b[37] == a[37]);
    assert(b[38] == a[38]);
    assert(b[39] == a[39]);
    assert(b[40] == a[40]);
    assert(b[41] == a[41]);
}

/// Appending further commands keeps the shape of commands 42 to 47.
proof fn lemma_shape_p42_extends(a: Seq<TypableCommand>, b: Seq<TypableCommand>)
    requires
        default_table_shape_p42(a),
        b.len() >= a.len(),
        b.subrange(0, a.len() as int) == a.subrange(0, a.len() as int),
    ensures
        default_table_shape_p42(b),
{
    let n = a.len() as int;
    assert forall|k: int| 0 <= k < n implies b[k] == a[k] by {
        assert(b.subrange(0, n) == a.subrange(0, n));
        assert(b.subrange(0, n)[k] == b[k]);
        assert(a.subrange(0, n)[k] == a[k]);
    }
    assert(b[42] == a[42]);
    assert(b[43] == a[43]);
    assert(b[44] == a[44]);
    assert(b[45] == a[45]);
    assert(b[46] == a[46]);
    assert(b[47] == a[47]);
}

/// Appending further commands keeps the shape of commands 48 to 53.
proof fn lemma_shape_p48_extends(a: Seq<TypableCommand>, b: Seq<TypableCommand>)
    requires
        default_table_shape_p48(a),
        b.len() >= a.len(),
        b.subrange(0, a.len() as int) == a.subrange(0, a.len() as int),
    ensures
        default_table_shape_p48(b),
{
    let n = a.len() as int;
    assert forall|k: int| 0 <= k < n implies b[k] == a[k] by {
        assert(b.subrange(0, n) == a.subrange(0, n));
        assert(b.subrange(0, n)[k] == b[k]);
        assert(a.subrange(0, n)[k] == a[k]);
    }
    assert(b[48] == a[48]);
    assert(b[49] == a[49]);
    assert(b[50] == a[50]);
    assert(b[51] == a[51]);
    assert(b[52] == a[52]);
    assert(b[53] == a[53]);
}

/// Appending further commands keeps the shape of commands 54 to 59.
proof fn lemma_shape_p54_extends(a: Seq<TypableCommand>, b: Seq<TypableCommand>)
    requires
        default_table_shape_p54(a),
        b.len() >= a.len(),
        b.subrange(0, a.len() as int) == a.subrange(0, a.len() as int),
    ensures
        default_table_shape_p54(b),
{
    let n = a.len() as int;
    assert forall|k: int| 0 <= k < n implies b[k] == a[k] by {
        assert(b.subrange(0, n) == a.subrange(0, n));
        assert(b.subrange(0, n)[k] == b[k]);
        assert(a.subrange(0, n)[k] == a[k]);
    }
    assert(b[54] == a[54]);
    assert(b[55] == a[55]);
    assert(b[56] == a[56]);
    assert(b[57] == a[57]);
    assert(b[58] == a[58]);
    assert(b[59] == a[59]);
}

/// Appending further commands keeps the shape of commands 60 to 65.
proof fn lemma_shape_p60_extends(a: Seq<TypableCommand>, b: Seq<TypableCommand>)
    requires
        default_table_shape_p60(a),
        b.len() >= a.len(),
        b.subrange(0, a.len() as int) == a.subrange(0, a.len() as int),
    ensures
        default_table_shape_p60(b),
{
    let n = a.len() as int;
    assert forall|k: int| 0 <= k < n implies b[k] == a[k] by {
        assert(b.subrange(0, n) == a.subrange(0, n));
        assert(b.subrange(0, n)[k] == b[k]);
        assert(a.subrange(0, n)[k] == a[k]);
    }
    assert(b[60] == a[60]);
    assert(b[61] == a[61]);
    assert(b[62] == a[62]);
    assert(b[63] == a[63]);
    assert(b[64] == a[64]);
    assert(b[65] == a[65]);
}

/// Appending further commands keeps the shape of commands 66 to 71.
proof fn lemma_shape_p66_extends(a: Seq<TypableCommand>, b: Seq<TypableCommand>)
    requires
        default_table_shape_p66(a),
        b.len() >= a.len(),
        b.subrange(0, a.len() as int) == a.subrange(0, a.len() as int),
    ensures
        default_table_shape_p66(b),
{
    let n = a.len() as int;
    assert forall|k: int| 0 <= k < n implies b[k] == a[k] by {
        assert(b.subrange(0, n) == a.subrange(0, n));
        assert(b.subrange(0, n)[k] == b[k]);
        assert(a.subrange(0, n)[k] == a[k]);
    }
    assert(b[66] == a[66]);
    assert(b[67] == a[67]);
    assert(b[68] == a[68]);
    assert(b[69] == a[69]);
    assert(b[70] == a[70]);
    assert(b[71] == a[71]);
}

/// Appending further commands keeps the shape of commands 72 to 77.
proof fn lemma_shape_p72_extends(a: Seq<TypableCommand>, b: Seq<TypableCommand>)
    requires
        default_table_shape_p72(a),
        b.len() >= a.len(),
        b.subrange(0, a.len() as int) == a.subrange(0, a.len() as int),
    ensures
        default_table_shape_p72(b),
{
    let n = a.len() as int;
    assert forall|k: int| 0 <= k < n implies b[k] == a[k] by {
        assert(b.subrange(0, n) == a.subrange(0, n));
        assert(b.subrange(0, n)[k] == b[k]);
        assert(a.subrange(0, n)[k] == a[k]);
    }
    assert(b[72] == a[72]);
    assert(b[73] == a[73]);
    assert(b[74] == a[74]);
    assert(b[75] == a[75]);
    assert(b[76] == a[76]);
    assert(b[77] == a[77]);
}

/// Appending further commands keeps the shape of commands 78 to 83.
proof fn lemma_shape_p78_extends(a: Seq<TypableCommand>, b: Seq<TypableCommand>)
    requires
        default_table_shape_p78(a),
        b.len() >= a.len(),
        b.subrange(0, a.len() as int) == a.subrange(0, a.len() as int),
    ensures
        default_table_shape_p78(b),
{
    let n = a.len() as int;
    assert forall|k: int| 0 <= k < n implies b[k] == a[k] by {
        assert(b.subrange(0, n) == a.subrange(0, n));
        assert(b.subrange(0, n)[k] == b[k]);
        assert(a.subrange(0, n)[k] == a[k]);
    }
    assert(b[78] == a[78]);
    assert(b[79] == a[79]);
    assert(b[80] == a[80]);
    assert(b[81] == a[81]);
    assert(b[82] == a[82]);
    assert(b[83] == a[83]);
}

/// Appending further commands keeps the shape of commands 84 to 87.
proof fn lemma_shape_p84_extends(a: Seq<TypableCommand>, b: Seq<TypableCommand>)
    requires
        default_table_shape_p84(a),
        b.len() >= a.len(),
        b.subrange(0, a.len() as int) == a.subrange(0, a.len() as int),
    ensures
        default_table_shape_p84(b),
{
    let n = a.len() as int;
    assert forall|k: int| 0 <= k < n implies b[k] == a[k] by {
        assert(b.subrange(0, n) == a.subrange(0, n));
        assert(b.subrange(0, n)[k] == b[k]);
        assert(a.subrange(0, n)[k] == a[k]);
    }
    assert(b[84] == a[84]);
    assert(b[85] == a[85]);
    assert(b[86] == a[86]);
    assert(b[87] == a[87]);
}

/// The built-in command table itself.
#[verifier::rlimit(100)]
fn default_commands() -> (r: Vec<TypableCommand>)
    ensures
        default_table_shape(r@),
{
    let mut commands: Vec<TypableCommand> = Vec::new();
    let ghost snap_p00 = commands@;
    default_commands_p00(&mut commands);
    let ghost snap_p06 = commands@;
    default_commands_p06(&mut commands);
    proof {
        assert(snap_p06.subrange(0, 6) =~= snap_p06);
        lemma_shape_p00_extends(snap_p06, commands@);
    }
    let ghost snap_p12 = commands@;
    default_commands_p12(&mut commands);
    proof {
        assert(snap_p12.subrange(0, 12) =~= snap_p12);
        lemma_shape_p00_extends(snap_p12, commands@);
        lemma_shape_p06_extends(snap_p12, commands@);
    }
    let ghost snap_p18 = commands@;
    default_commands_p18(&mut commands);
    proof {
        assert(snap_p18.subrange(0, 18) =~= snap_p18);
        lemma_shape_p00_extends(snap_p18, commands@);
        lemma_shape_p06_extends(snap_p18, commands@);
        lemma_shape_p12_extends(snap_p18, commands@);
    }
    let ghost snap_p24 = commands@;
    default_commands_p24(&mut commands);
    proof {
        assert(snap_p24.subrange(0, 24) =~= snap_p24);
        lemma_shape_p00_extends(snap_p24, commands@);
        lemma_shape_p06_extends(snap_p24, commands@);
        lemma_shape_p12_extends(snap_p24, commands@);
        lemma_shape_p18_extends(snap_p24, commands@);
    }
    let ghost snap_p30 = commands@;
    default_commands_p30(&mut commands);
    proof {
        assert(snap_p30.subrange(0, 30) =~= snap_p30);
        lemma_shape_p00_extends(snap_p30, commands@);
        lemma_shape_p06_extends(snap_p30, commands@);
        lemma_shape_p12_extends(snap_p30, commands@);
        lemma_shape_p18_extends(snap_p30, commands@);
        lemma_shape_p24_extends(snap_p30, commands@);
    }
    let ghost snap_p36 = commands@;
    default_commands_p36(&mut commands);
    proof {
        assert(snap_p36.subrange(0, 36) =~= snap_p36);
        lemma_shape_p00_extends(snap_p36, commands@);
        lemma_shape_p06_extends(snap_p36, commands@);
        lemma_shape_p12_extends(snap_p36, commands@);
        lemma_shape_p18_extends(snap_p36, commands@);
        lemma_shape_p24_extends(snap_p36, commands@);
        lemma_shape_p30_extends(snap_p36, commands@);
    }
    let ghost snap_p42 = commands@;
    default_commands_p42(&mut commands);
    proof {
        assert(snap_p42.subrange(0, 42) =~= snap_p42);
        lemma_shape_p00_extends(snap_p42, commands@);
        lemma_shape_p06_extends(snap_p42, commands@);
        lemma_shape_p12_extends(snap_p42, commands@);
        lemma_shape_p18_extends(snap_p42, commands@);
        lemma_shape_p24_extends(snap_p42, commands@);
        lemma_shape_p30_extends(snap_p42, commands@);
        lemma_shape_p36_extends(snap_p42, commands@);
    }
    let ghost snap_p48 = commands@;
    default_commands_p48(&mut commands);
    proof {
        assert(snap_p48.subrange(0, 48) =~= snap_p48);
        lemma_shape_p00_extends(snap_p48, commands@);
        lemma_shape_p06_extends(snap_p48, commands@);
        lemma_shape_p12_extends(snap_p48, commands@);
        lemma_shape_p18_extends(snap_p48, commands@);
        lemma_shape_p24_extends(snap_p48, commands@);
        lemma_shape_p30_extends(snap_p48, commands@);
        lemma_shape_p36_extends(snap_p48, commands@);
        lemma_shape_p42_extends(snap_p48, commands@);
    }
    let ghost snap_p54 = commands@;
    default_commands_p54(&mut commands);
    proof {
        assert(snap_p54.subrange(0, 54) =~= snap_p54);
        lemma_shape_p00_extends(snap_p54, commands@);
        lemma_shape_p06_extends(snap_p54, commands@);
        lemma_shape_p12_extends(snap_p54, commands@);
        lemma_shape_p18_extends(snap_p54, commands@);
        lemma_shape_p24_extends(snap_p54, commands@);
        lemma_shape_p30_extends(snap_p54, commands@);
        lemma_shape_p36_extends(snap_p54, commands@);
        lemma_shape_p42_extends(snap_p54, commands@);
        lemma_shape_p48_extends(snap_p54, commands@);
    }
    let ghost snap_p60 = commands@;
    default_commands_p60(&mut commands);
    proof {
        assert(snap_p60.subrange(0, 60) =~= snap_p60);
        lemma_shape_p00_extends(snap_p60, commands@);
        lemma_shape_p06_extends(snap_p60, commands@);
        lemma_shape_p12_extends(snap_p60, commands@);
        lemma_shape_p18_extends(snap_p60, commands@);
        lemma_shape_p24_extends(snap_p60, commands@);
        lemma_shape_p30_extends(snap_p60, commands@);
        lemma_shape_p36_extends(snap_p60, commands@);
        lemma_shape_p42_extends(snap_p60, commands@);
        lemma_shape_p48_extends(snap_p60, commands@);
        lemma_shape_p54_extends(snap_p60, commands@);
    }
    let ghost snap_p66 = commands@;
    default_commands_p66(&mut commands);
    proof {
        assert(snap_p66.subrange(0, 66) =~= snap_p66);
        lemma_shape_p00_extends(snap_p66, commands@);
        lemma_shape_p06_extends(snap_p66, commands@);
        lemma_shape_p12_extends(snap_p66, commands@);
        lemma_shape_p18_extends(snap_p66, commands@);
        lemma_shape_p24_extends(snap_p66, commands@);
        lemma_shape_p30_extends(snap_p66, commands@);
        lemma_shape_p36_extends(snap_p66, commands@);
        lemma_shape_p42_extends(snap_p66, commands@);
        lemma_shape_p48_extends(snap_p66, commands@);
        lemma_shape_p54_extends(snap_p66, commands@);
        lemma_shape_p60_extends(snap_p66, commands@);
    }
    let ghost snap_p72 = commands@;
    default_commands_p72(&mut commands);
    proof {
        assert(snap_p72.subrange(0, 72) =~= snap_p72);
        lemma_shape_p00_extends(snap_p72, commands@);
        lemma_shape_p06_extends(snap_p72, commands@);
        lemma_shape_p12_extends(snap_p72, commands@);
        lemma_shape_p18_extends(snap_p72, commands@);
        lemma_shape_p24_extends(snap_p72, commands@);
        lemma_shape_p30_extends(snap_p72, commands@);
        lemma_shape_p36_extends(snap_p72, commands@);
        lemma_shape_p42_extends(snap_p72, commands@);
        lemma_shape_p48_extends(snap_p72, commands@);
        lemma_shape_p54_extends(snap_p72, commands@);
        lemma_shape_p60_extends(snap_p72, commands@);
        lemma_shape_p66_extends(snap_p72, commands@);
    }
    let ghost snap_p78 = commands@;
    default_commands_p78(&mut commands);
    proof {
        assert(snap_p78.subrange(0, 78) =~= snap_p78);
        lemma_shape_p00_extends(snap_p78, commands@);
        lemma_shape_p06_extends(snap_p78, commands@);
        lemma_shape_p12_extends(snap_p78, commands@);
        lemma_shape_p18_extends(snap_p78, commands@);
        lemma_shape_p24_extends(snap_p78, commands@);
        lemma_shape_p30_extends(snap_p78, commands@);
        lemma_shape_p36_extends(snap_p78, commands@);
        lemma_shape_p42_extends(snap_p78, commands@);
        lemma_shape_p48_extends(snap_p78, commands@);
        lemma_shape_p54_extends(snap_p78, commands@);
        lemma_shape_p60_extends(snap_p78, commands@);
        lemma_shape_p66_extends(snap_p78, commands@);
        lemma_shape_p72_extends(snap_p78, commands@);
    }
    let ghost snap_p84 = commands@;
    default_commands_p84(&mut commands);
    proof {
        assert(snap_p84.subrange(0, 84) =~= snap_p84);
        lemma_shape_p00_extends(snap_p84, commands@);
        lemma_shape_p06_extends(snap_p84, commands@);
        lemma_shape_p12_extends(snap_p84, commands@);
        lemma_shape_p18_extends(snap_p84, commands@);
        lemma_shape_p24_extends(snap_p84, commands@);
        lemma_shape_p30_extends(snap_p84, commands@);
        lemma_shape_p36_extends(snap_p84, commands@);
        lemma_shape_p42_extends(snap_p84, commands@);
        lemma_shape_p48_extends(snap_p84, commands@);
        lemma_shape_p54_extends(snap_p84, commands@);
        lemma_shape_p60_extends(snap_p84, commands@);
        lemma_shape_p66_extends(snap_p84, commands@);
        lemma_shape_p72_extends(snap_p84, commands@);
        lemma_shape_p78_extends(snap_p84, commands@);
    }
    assert(default_table_shape(commands@));
    commands
}

/// The index of the built-in command that owns a key of the table.
pub open spec fn spec_default_owner(key: Seq<u8>) -> int {
    if key == "quit".spec_bytes() {
        0int
    } else if key == "q".spec_bytes() {
        0int
    } else if key == "quit!".spec_bytes() {
        1int
    } else if key == "q!".spec_bytes() {
        1int
    } else if key == "open".spec_bytes() {
        2int
    } else if key == "o".spec_bytes() {
        2int
    } else if key == "edit".spec_bytes() {
        2int
    } else if key == "e".spec_bytes() {
        2int
    } else if key == "buffer-close".spec_bytes() {
        3int
    } else if key == "bc".spec_bytes() {
        3int
    } else if key == "bclose".spec_bytes() {
        3int
    } else if key == "buffer-close!".spec_bytes() {
        4int
    } else if key == "bc!".spec_bytes() {
        4int
    } else if key == "bclose!".spec_bytes() {
        4int
    } else if key == "buffer-close-others".spec_bytes() {
        5int
    } else if key == "bco".spec_bytes() {
        5int
    } else if key == "bcloseother".spec_bytes() {
        5int
    } else if key == "buffer-close-others!".spec_bytes() {
        6int
    } else if key == "bco!".spec_bytes() {
        6int
    } else if key == "bcloseother!".spec_bytes() {
        6int
    } else if key == "buffer-close-all".spec_bytes() {
        7int
    } else if key == "bca".spec_bytes() {
        7int
    } else if key == "bcloseall".spec_bytes() {
        7int
    } else if key == "buffer-close-all!".spec_bytes() {
        8int
    } else if key == "bca!".spec_bytes() {
        8int
    } else if key == "bcloseall!".spec_bytes() {
        8int
    } else if key == "buffer-next".spec_bytes() {
        9int
    } else if key == "bn".spec_bytes() {
        9int
    } else if key == "bnext".spec_bytes() {
        9int
    } else if key == "buffer-previous".spec_bytes() {
        10int
    } else if key == "bp".spec_bytes() {
        10int
    } else if key == "bprev".spec_bytes() {
        10int
    } else if key == "write".spec_bytes() {
        11int
    } else if key == "w".spec_bytes() {
        11int
    } else if key == "write!".spec_bytes() {
        12int
    } else if key == "w!".spec_bytes() {
        12int
    } else if key == "new".spec_bytes() {
        13int
    } else if key == "n".spec_bytes() {
        13int
    } else if key == "format".spec_bytes() {
        14int
    } else if key == "fmt".spec_bytes() {
        14int
    } else if key == "write-all".spec_bytes() {
        15int
    } else if key == "wa".spec_bytes() {
        15int
    } else if key == "write-all!".spec_bytes() {
        16int
    } else if key == "wa!".spec_bytes() {
        16int
    } else if key == "write-quit-all".spec_bytes() {
        17int
    } else if key == "wqa".spec_bytes() {
        17int
    } else if key == "xa".spec_bytes() {
        17int
    } else if key == "write-quit-all!".spec_bytes() {
        18int
    } else if key == "wqa!".spec_bytes() {
        18int
    } else if key == "xa!".spec_bytes() {
        18int
    } else if key == "quit-all".spec_bytes() {
        19int
    } else if key == "qa".spec_bytes() {
        19int
    } else if key == "quit-all!".spec_bytes() {
        20int
    } else if key == "qa!".spec_bytes() {
        20int
    } else if key == "cquit".spec_bytes() {
        21int
    } else if key == "cq".spec_bytes() {
        21int
    } else if key == "cquit!".spec_bytes() {
        22int
    } else if key == "cq!".spec_bytes() {
        22int
    } else if key == "theme".spec_bytes() {
        23int
    } else if key == "goto".spec_bytes() {
        24int
    } else if key == "g".spec_bytes() {
        24int
    } else if key == "get-option".spec_bytes() {
        25int
    } else if key == "get".spec_bytes() {
        25int
    } else if key == "set-option".spec_bytes() {
        26int
    } else if key == "set".spec_bytes() {
        26int
    } else if key == "toggle-option".spec_bytes() {
        27int
    } else if key == "toggle".spec_bytes() {
        27int
    } else if key == "echo".spec_bytes() {
        28int
    } else if key == "run-shell-command".spec_bytes() {
        29int
    } else if key == "sh".spec_bytes() {
        29int
    } else if key == "insert-output".spec_bytes() {
        30int
    } else if key == "append-output".spec_bytes() {
        31int
    } else if key == "pipe".spec_bytes() {
        32int
    } else if key == "pipe-to".spec_bytes() {
        33int
    } else if key == "reload".spec_bytes() {
        34int
    } else if key == "rl".spec_bytes() {
        34int
    } else if key == "change-current-directory".spec_bytes() {
        35int
    } else if key == "cd".spec_bytes() {
        35int
    } else if key == "clear-register".spec_bytes() {
        36int
    } else if key == "move".spec_bytes() {
        37int
    } else if key == "mv".spec_bytes() {
        37int
    } else if key == "yank-diagnostic".spec_bytes() {
        38int
    } else if key == "set-language".spec_bytes() {
        39int
    } else if key == "lang".spec_bytes() {
        39int
    } else if key == "lsp-workspace-command".spec_bytes() {
        40int
    } else if key == "write-buffer-close".spec_bytes() {
        41int
    } else if key == "wbc".spec_bytes() {
        41int
    } else if key == "write-buffer-close!".spec_bytes() {
        42int
    } else if key == "wbc!".spec_bytes() {
        42int
    } else if key == "indent-style".spec_bytes() {
        43int
    } else if key == "line-ending".spec_bytes() {
        44int
    } else if key == "earlier".spec_bytes() {
        45int
    } else if key == "ear".spec_bytes() {
        45int
    } else if key == "later".spec_bytes() {
        46int
    } else if key == "lat".spec_bytes() {
        46int
    } else if key == "write-quit".spec_bytes() {
        47int
    } else if key == "wq".spec_bytes() {
        47int
    } else if key == "x".spec_bytes() {
        47int
    } else if key == "write-quit!".spec_bytes() {
        48int
    } else if key == "wq!".spec_bytes() {
        48int
    } else if key == "x!".spec_bytes() {
        48int
    } else if key == "yank-join".spec_bytes() {
        49int
    } else if key == "clipboard-yank".spec_bytes() {
        50int
    } else if key == "clipboard-yank-join".spec_bytes() {
        51int
    } else if key == "primary-clipboard-yank".spec_bytes() {
        52int
    } else if key == "primary-clipboard-yank-join".spec_bytes() {
        53int
    } else if key == "clipboard-paste-after".spec_bytes() {
        54int
    } else if key == "clipboard-paste-before".spec_bytes() {
        55int
    } else if key == "clipboard-paste-replace".spec_bytes() {
        56int
    } else if key == "primary-clipboard-paste-after".spec_bytes() {
        57int
    } else if key == "primary-clipboard-paste-before".spec_bytes() {
        58int
    } else if key == "primary-clipboard-paste-replace".spec_bytes() {
        59int
    } else if key == "show-clipboard-provider".spec_bytes() {
        60int
    } else if key == "show-directory".spec_bytes() {
        61int
    } else if key == "pwd".spec_bytes() {
        61int
    } else if key == "encoding".spec_bytes() {
        62int
    } else if key == "character-info".spec_bytes() {
        63int
    } else if key == "char".spec_bytes() {
        63int
    } else if key == "reload-all".spec_bytes() {
        64int
    } else if key == "rla".spec_bytes() {
        64int
    } else if key == "update".spec_bytes() {
        65int
    } else if key == "u".spec_bytes() {
        65int
    } else if key == "lsp-restart".spec_bytes() {
        66int
    } else if key == "lsp-stop".spec_bytes() {
        67int
    } else if key == "tree-sitter-scopes".spec_bytes() {
        68int
    } else if key == "tree-sitter-highlight-name".spec_bytes() {
        69int
    } else if key == "debug-start".spec_bytes() {
        70int
    } else if key == "dbg".spec_bytes() {
        70int
    } else if key == "debug-remote".spec_bytes() {
        71int
    } else if key == "dbg-tcp".spec_bytes() {
        71int
    } else if key == "debug-eval".spec_bytes() {
        72int
    } else if key == "vsplit".spec_bytes() {
        73int
    } else if key == "vs".spec_bytes() {
        73int
    } else if key == "vsplit-new".spec_bytes() {
        74int
    } else if key == "vnew".spec_bytes() {
        74int
    } else if key == "hsplit".spec_bytes() {
        75int
    } else if key == "hs".spec_bytes() {
        75int
    } else if key == "sp".spec_bytes() {
        75int
    } else if key == "hsplit-new".spec_bytes() {
        76int
    } else if key == "hnew".spec_bytes() {
        76int
    } else if key == "tutor".spec_bytes() {
        77int
    } else if key == "sort".spec_bytes() {
        78int
    } else if key == "reflow".spec_bytes() {
        79int
    } else if key == "tree-sitter-subtree".spec_bytes() {
        80int
    } else if key == "ts-subtree".spec_bytes() {
        80int
    } else if key == "config-reload".spec_bytes() {
        81int
    } else if key == "config-open".spec_bytes() {
        82int
    } else if key == "config-open-workspace".spec_bytes() {
        83int
    } else if key == "log-open".spec_bytes() {
        84int
    } else if key == "reset-diff-change".spec_bytes() {
        85int
    } else if key == "diffget".spec_bytes() {
        85int
    } else if key == "diffg".spec_bytes() {
        85int
    } else if key == "redraw".spec_bytes() {
        86int
    } else if key == "read".spec_bytes() {
        87int
    } else if key == "r".spec_bytes() {
        87int
    } else {
        -1int
    }
}

/// Every key of the built-in table belongs to exactly one command: the
/// one the owner function names.
#[verifier::rlimit(100)]
proof fn lemma_default_owner(cmds: Seq<TypableCommand>)
    requires
        default_table_shape(cmds),
    ensures
        forall|b: int, key: Seq<u8>|
            0 <= b < cmds.len() && #[trigger] cmd_has_key(&cmds[b], key) ==> spec_default_owner(
                key,
            ) == b,
{
    broadcast use vstd::string::is_ascii_spec_bytes;

    reveal_strlit("quit");
    reveal_strlit("q");
    reveal_strlit("quit!");
    reveal_strlit("q!");
    reveal_strlit("open");
    reveal_strlit("o");
    reveal_strlit("edit");
    reveal_strlit("e");
    reveal_strlit("buffer-close");
    reveal_strlit("bc");
    reveal_strlit("bclose");
    reveal_strlit("buffer-close!");
    reveal_strlit("bc!");
    reveal_strlit("bclose!");
    reveal_strlit("buffer-close-others");
    reveal_strlit("bco");
    reveal_strlit("bcloseother");
    reveal_strlit("buffer-close-others!");
    reveal_strlit("bco!");
    reveal_strlit("bcloseother!");
    reveal_strlit("buffer-close-all");
    reveal_strlit("bca");
    reveal_strlit("bcloseall");
    reveal_strlit("buffer-close-all!");
    reveal_strlit("bca!");
    reveal_strlit("bcloseall!");
    reveal_strlit("buffer-next");
    reveal_strlit("bn");
    reveal_strlit("bnext");
    reveal_strlit("buffer-previous");
    reveal_strlit("bp");
    reveal_strlit("bprev");
    reveal_strlit("write");
    reveal_strlit("w");
    reveal_strlit("write!");
    reveal_strlit("w!");
    reveal_strlit("new");
    reveal_strlit("n");
    reveal_strlit("format");
    reveal_strlit("fmt");
    reveal_strlit("write-all");
    reveal_strlit("wa");
    reveal_strlit("write-all!");
    reveal_strlit("wa!");
    reveal_strlit("write-quit-all");
    reveal_strlit("wqa");
    reveal_strlit("xa");
    reveal_strlit("write-quit-all!");
    reveal_strlit("wqa!");
    reveal_strlit("xa!");
    reveal_strlit("quit-all");
    reveal_strlit("qa");
    reveal_strlit("quit-all!");
    reveal_strlit("qa!");
    reveal_strlit("cquit");
    reveal_strlit("cq");
    reveal_strlit("cquit!");
    reveal_strlit("cq!");
    reveal_strlit("theme");
    reveal_strlit("goto");
    reveal_strlit("g");
    reveal_strlit("get-option");
    reveal_strlit("get");
    reveal_strlit("set-option");
    reveal_strlit("set");
    reveal_strlit("toggle-option");
    reveal_strlit("toggle");
    reveal_strlit("echo");
    reveal_strlit("run-shell-command");
    reveal_strlit("sh");
    reveal_strlit("insert-output");
    reveal_strlit("append-output");
    reveal_strlit("pipe");
    reveal_strlit("pipe-to");
    reveal_strlit("reload");
    reveal_strlit("rl");
    reveal_strlit("change-current-directory");
    reveal_strlit("cd");
    reveal_strlit("clear-register");
    reveal_strlit("move");
    reveal_strlit("mv");
    reveal_strlit("yank-diagnostic");
    reveal_strlit("set-language");
    reveal_strlit("lang");
    reveal_strlit("lsp-workspace-command");
    reveal_strlit("write-buffer-close");
    reveal_strlit("wbc");
    reveal_strlit("write-buffer-close!");
    reveal_strlit("wbc!");
    reveal_strlit("indent-style");
    reveal_strlit("line-ending");
    reveal_strlit("earlier");
    reveal_strlit("ear");
    reveal_strlit("later");
    reveal_strlit("lat");
    reveal_strlit("write-quit");
    reveal_strlit("wq");
    reveal_strlit("x");
    reveal_strlit("write-quit!");
    reveal_strlit("wq!");
    reveal_strlit("x!");
    reveal_strlit("yank-join");
    reveal_strlit("clipboard-yank");
    reveal_strlit("clipboard-yank-join");
    reveal_strlit("primary-clipboard-yank");
    reveal_strlit("primary-clipboard-yank-join");
    reveal_strlit("clipboard-paste-after");
    reveal_strlit("clipboard-paste-before");
    reveal_strlit("clipboard-paste-replace");
    reveal_strlit("primary-clipboard-paste-after");
    reveal_strlit("primary-clipboard-paste-before");
    reveal_strlit("primary-clipboard-paste-replace");
    reveal_strlit("show-clipboard-provider");
    reveal_strlit("show-directory");
    reveal_strlit("pwd");
    reveal_strlit("encoding");
    reveal_strlit("character-info");
    reveal_strlit("char");
    reveal_strlit("reload-all");
    reveal_strlit("rla");
    reveal_strlit("update");
    reveal_strlit("u");
    reveal_strlit("lsp-restart");
    reveal_strlit("lsp-stop");
    reveal_strlit("tree-sitter-scopes");
    reveal_strlit("tree-sitter-highlight-name");
    reveal_strlit("debug-start");
    reveal_strlit("dbg");
    reveal_strlit("debug-remote");
    reveal_strlit("dbg-tcp");
    reveal_strlit("debug-eval");
    reveal_strlit("vsplit");
    reveal_strlit("vs");
    reveal_strlit("vsplit-new");
    reveal_strlit("vnew");
    reveal_strlit("hsplit");
    reveal_strlit("hs");
    reveal_strlit("sp");
    reveal_strlit("hsplit-new");
    reveal_strlit("hnew");
    reveal_strlit("tutor");
    reveal_strlit("sort");
    reveal_strlit("reflow");
    reveal_strlit("tree-sitter-subtree");
    reveal_strlit("ts-subtree");
    reveal_strlit("config-reload");
    reveal_strlit("config-open");
    reveal_strlit("config-open-workspace");
    reveal_strlit("log-open");
    reveal_strlit("reset-diff-change");
    reveal_strlit("diffget");
    reveal_strlit("diffg");
    reveal_strlit("redraw");
    reveal_strlit("read");
    reveal_strlit("r");
    assert(is_ascii("quit"));
    assert(is_ascii("q"));
    assert(is_ascii("quit!"));
    assert(is_ascii("q!"));
    assert(is_ascii("open"));
    assert(is_ascii("o"));
    assert(is_ascii("edit"));
    assert(is_ascii("e"));
    assert(is_ascii("buffer-close"));
    assert(is_ascii("bc"));
    assert(is_ascii("bclose"));
    assert(is_ascii("buffer-close!"));
    assert(is_ascii("bc!"));
    assert(is_ascii("bclose!"));
    assert(is_ascii("buffer-close-others"));
    assert(is_ascii("bco"));
    assert(is_ascii("bcloseother"));
    assert(is_ascii("buffer-close-others!"));
    assert(is_ascii("bco!"));
    assert(is_ascii("bcloseother!"));
    assert(is_ascii("buffer-close-all"));
    assert(is_ascii("bca"));
    assert(is_ascii("bcloseall"));
    assert(is_ascii("buffer-close-all!"));
    assert(is_ascii("bca!"));
    assert(is_ascii("bcloseall!"));
    assert(is_ascii("buffer-next"));
    assert(is_ascii("bn"));
    assert(is_ascii("bnext"));
    assert(is_ascii("buffer-previous"));
    assert(is_ascii("bp"));
    assert(is_ascii("bprev"));
    assert(is_ascii("write"));
    assert(is_ascii("w"));
    assert(is_ascii("write!"));
    assert(is_ascii("w!"));
    assert(is_ascii("new"));
    assert(is_ascii("n"));
    assert(is_ascii("format"));
    assert(is_ascii("fmt"));
    assert(is_ascii("write-all"));
    assert(is_ascii("wa"));
    assert(is_ascii("write-all!"));
    assert(is_ascii("wa!"));
    assert(is_ascii("write-quit-all"));
    assert(is_ascii("wqa"));
    assert(is_ascii("xa"));
    assert(is_ascii("write-quit-all!"));
    assert(is_ascii("wqa!"));
    assert(is_ascii("xa!"));
    assert(is_ascii("quit-all"));
    assert(is_ascii("qa"));
    assert(is_ascii("quit-all!"));
    assert(is_ascii("qa!"));
    assert(is_ascii("cquit"));
    assert(is_ascii("cq"));
    assert(is_ascii("cquit!"));
    assert(is_ascii("cq!"));
    assert(is_ascii("theme"));
    assert(is_ascii("goto"));
    assert(is_ascii("g"));
    assert(is_ascii("get-option"));
    assert(is_ascii("get"));
    assert(is_ascii("set-option"));
    assert(is_ascii("set"));
    assert(is_ascii("toggle-option"));
    assert(is_ascii("toggle"));
    assert(is_ascii("echo"));
    assert(is_ascii("run-shell-command"));
    assert(is_ascii("sh"));
    assert(is_ascii("insert-output"));
    assert(is_ascii("append-output"));
    assert(is_ascii("pipe"));
    assert(is_ascii("pipe-to"));
    assert(is_ascii("reload"));
    assert(is_ascii("rl"));
    assert(is_ascii("change-current-directory"));
    assert(is_ascii("cd"));
    assert(is_ascii("clear-register"));
    assert(is_ascii("move"));
    assert(is_ascii("mv"));
    assert(is_ascii("yank-diagnostic"));
    assert(is_ascii("set-language"));
    assert(is_ascii("lang"));
    assert(is_ascii("lsp-workspace-command"));
    assert(is_ascii("write-buffer-close"));
    assert(is_ascii("wbc"));
    assert(is_ascii("write-buffer-close!"));
    assert(is_ascii("wbc!"));
    assert(is_ascii("indent-style"));
    assert(is_ascii("line-ending"));
    assert(is_ascii("earlier"));
    assert(is_ascii("ear"));
    assert(is_ascii("later"));
    assert(is_ascii("lat"));
    assert(is_ascii("write-quit"));
    assert(is_ascii("wq"));
    assert(is_ascii("x"));
    assert(is_ascii("write-quit!"));
    assert(is_ascii("wq!"));
    assert(is_ascii("x!"));
    assert(is_ascii("yank-join"));
    assert(is_ascii("clipboard-yank"));
    assert(is_ascii("clipboard-yank-join"));
    assert(is_ascii("primary-clipboard-yank"));
    assert(is_ascii("primary-clipboard-yank-join"));
    assert(is_ascii("clipboard-paste-after"));
    assert(is_ascii("clipboard-paste-before"));
    assert(is_ascii("clipboard-paste-replace"));
    assert(is_ascii("primary-clipboard-paste-after"));
    assert(is_ascii("primary-clipboard-paste-before"));
    assert(is_ascii("primary-clipboard-paste-replace"));
    assert(is_ascii("show-clipboard-provider"));
    assert(is_ascii("show-directory"));
    assert(is_ascii("pwd"));
    assert(is_ascii("encoding"));
    assert(is_ascii("character-info"));
    assert(is_ascii("char"));
    assert(is_ascii("reload-all"));
    assert(is_ascii("rla"));
    assert(is_ascii("update"));
    assert(is_ascii("u"));
    assert(is_ascii("lsp-restart"));
    assert(is_ascii("lsp-stop"));
    assert(is_ascii("tree-sitter-scopes"));
    assert(is_ascii("tree-sitter-highlight-name"));
    assert(is_ascii("debug-start"));
    assert(is_ascii("dbg"));
    assert(is_ascii("debug-remote"));
    assert(is_ascii("dbg-tcp"));
    assert(is_ascii("debug-eval"));
    assert(is_ascii("vsplit"));
    assert(is_ascii("vs"));
    assert(is_ascii("vsplit-new"));
    assert(is_ascii("vnew"));
    assert(is_ascii("hsplit"));
    assert(is_ascii("hs"));
    assert(is_ascii("sp"));
    assert(is_ascii("hsplit-new"));
    assert(is_ascii("hnew"));
    assert(is_ascii("tutor"));
    assert(is_ascii("sort"));
    assert(is_ascii("reflow"));
    assert(is_ascii("tree-sitter-subtree"));
    assert(is_ascii("ts-subtree"));
    assert(is_ascii("config-reload"));
    assert(is_ascii("config-open"));
    assert(is_ascii("config-open-workspace"));
    assert(is_ascii("log-open"));
    assert(is_ascii("reset-diff-change"));
    assert(is_ascii("diffget"));
    assert(is_ascii("diffg"));
    assert(is_ascii("redraw"));
    assert(is_ascii("read"));
    assert(is_ascii("r"));
    assert("append-output".spec_bytes()[0] == 97);
    assert("bc".spec_bytes()[0] == 98);
    assert("bc".spec_bytes()[1] == 99);
    assert("bc!".spec_bytes()[0] == 98);
    assert("bc!".spec_bytes()[2] == 33);
    assert("bca".spec_bytes()[0] == 98);
    assert("bca".spec_bytes()[2] == 97);
    assert("bca!".spec_bytes()[0] == 98);
    assert("bca!".spec_bytes()[2] == 97);
    assert("bclose".spec_bytes()[0] == 98);
    assert("bclose!".spec_bytes()[0] == 98);
    assert("bcloseall".spec_bytes()[0] == 98);
    assert("bcloseall!".spec_bytes()[0] == 98);
    assert("bcloseother".spec_bytes()[0] == 98);
    assert("bcloseother".spec_bytes()[1] == 99);
    assert("bcloseother!".spec_bytes()[0] == 98);
    assert("bcloseother!".spec_bytes()[1] == 99);
    assert("bco".spec_bytes()[0] == 98);
    assert("bco".spec_bytes()[2] == 111);
    assert("bco!".spec_bytes()[0] == 98);
    assert("bco!".spec_bytes()[2] == 111);
    assert("bn".spec_bytes()[0] == 98);
    assert("bn".spec_bytes()[1] == 110);
    assert("bnext".spec_bytes()[0] == 98);
    assert("bnext".spec_bytes()[1] == 110);
    assert("bp".spec_bytes()[0] == 98);
    assert("bp".spec_bytes()[1] == 112);
    assert("bprev".spec_bytes()[0] == 98);
    assert("bprev".spec_bytes()[1] == 112);
    assert("buffer-close".spec_bytes()[0] == 98);
    assert("buffer-close".spec_bytes()[1] == 117);
    assert("buffer-close!".spec_bytes()[0] == 98);
    assert("buffer-close-all!".spec_bytes()[0] == 98);
    assert("buffer-close-others".spec_bytes()[0] == 98);
    assert("buffer-next".spec_bytes()[0] == 98);
    assert("buffer-next".spec_bytes()[1] == 117);
    assert("buffer-previous".spec_bytes()[0] == 98);
    assert("cd".spec_bytes()[0] == 99);
    assert("cd".spec_bytes()[1] == 100);
    assert("char".spec_bytes()[0] == 99);
    assert("character-info".spec_bytes()[0] == 99);
    assert("character-info".spec_bytes()[1] == 104);
    assert("clear-register".spec_bytes()[0] == 99);
    assert("clear-register".spec_bytes()[1] == 108);
    assert("clear-register".spec_bytes()[2] == 101);
    assert("clipboard-paste-after".spec_bytes()[0] == 99);
    assert("clipboard-paste-after".spec_bytes()[1] == 108);
    assert("clipboard-paste-before".spec_bytes()[0] == 99);
    assert("clipboard-paste-replace".spec_bytes()[0] == 99);
    assert("clipboard-yank".spec_bytes()[0] == 99);
    assert("clipboard-yank".spec_bytes()[1] == 108);
    assert("clipboard-yank".spec_bytes()[2] == 105);
    assert("clipboard-yank-join".spec_bytes()[0] == 99);
    assert("config-open".spec_bytes()[0] == 99);
    assert("config-open-workspace".spec_bytes()[0] == 99);
    assert("config-open-workspace".spec_bytes()[1] == 111);
    assert("config-reload".spec_bytes()[0] == 99);
    assert("cq".spec_bytes()[0] == 99);
    assert("cq".spec_bytes()[1] == 113);
    assert("cq!".spec_bytes()[0] == 99);
    assert("cquit".spec_bytes()[0] == 99);
    assert("cquit!".spec_bytes()[0] == 99);
    assert("dbg".spec_bytes()[0] == 100);
    assert("dbg-tcp".spec_bytes()[0] == 100);
    assert("dbg-tcp".spec_bytes()[1] == 98);
    assert("debug-eval".spec_bytes()[0] == 100);
    assert("debug-remote".spec_bytes()[0] == 100);
    assert("debug-start".spec_bytes()[0] == 100);
    assert("diffg".spec_bytes()[0] == 100);
    assert("diffget".spec_bytes()[0] == 100);
    assert("diffget".spec_bytes()[1] == 105);
    assert("e".spec_bytes()[0] == 101);
    assert("ear".spec_bytes()[0] == 101);
    assert("earlier".spec_bytes()[0] == 101);
    assert("echo".spec_bytes()[0] == 101);
    assert("echo".spec_bytes()[1] == 99);
    assert("edit".spec_bytes()[0] == 101);
    assert("edit".spec_bytes()[1] == 100);
    assert("encoding".spec_bytes()[0] == 101);
    assert("fmt".spec_bytes()[0] == 102);
    assert("format".spec_bytes()[0] == 102);
    assert("g".spec_bytes()[0] == 103);
    assert("get".spec_bytes()[0] == 103);
    assert("get-option".spec_bytes()[0] == 103);
    assert("goto".spec_bytes()[0] == 103);
    assert("hnew".spec_bytes()[0] == 104);
    assert("hs".spec_bytes()[0] == 104);
    assert("hsplit".spec_bytes()[0] == 104);
    assert("hsplit-new".spec_bytes()[0] == 104);
    assert("indent-style".spec_bytes()[0] == 105);
    assert("insert-output".spec_bytes()[0] == 105);
    assert("lang".spec_bytes()[0] == 108);
    assert("lat".spec_bytes()[0] == 108);
    assert("later".spec_bytes()[0] == 108);
    assert("line-ending".spec_bytes()[0] == 108);
    assert("line-ending".spec_bytes()[1] == 105);
    assert("log-open".spec_bytes()[0] == 108);
    assert("log-open".spec_bytes()[1] == 111);
    assert("lsp-restart".spec_bytes()[0] == 108);
    assert("lsp-restart".spec_bytes()[1] == 115);
    assert("lsp-stop".spec_bytes()[0] == 108);
    assert("lsp-stop".spec_bytes()[1] == 115);
    assert("lsp-workspace-command".spec_bytes()[0] == 108);
    assert("move".spec_bytes()[0] == 109);
    assert("mv".spec_bytes()[0] == 109);
    assert("n".spec_bytes()[0] == 110);
    assert("new".spec_bytes()[0] == 110);
    assert("o".spec_bytes()[0] == 111);
    assert("open".spec_bytes()[0] == 111);
    assert("pipe".spec_bytes()[0] == 112);
    assert("pipe-to".spec_bytes()[0] == 112);
    assert("primary-clipboard-yank".spec_bytes()[0] == 112);
    assert("pwd".spec_bytes()[0] == 112);
    assert("q".spec_bytes()[0] == 113);
    assert("q!".spec_bytes()[0] == 113);
    assert("q!".spec_bytes()[1] == 33);
    assert("qa".spec_bytes()[0] == 113);
    assert("qa".spec_bytes()[1] == 97);
    assert("qa!".spec_bytes()[0] == 113);
    assert("quit".spec_bytes()[0] == 113);
    assert("quit!".spec_bytes()[0] == 113);
    assert("quit-all".spec_bytes()[0] == 113);
    assert("quit-all!".spec_bytes()[0] == 113);
    assert("r".spec_bytes()[0] == 114);
    assert("read".spec_bytes()[0] == 114);
    assert("redraw".spec_bytes()[0] == 114);
    assert("redraw".spec_bytes()[2] == 100);
    assert("reflow".spec_bytes()[0] == 114);
    assert("reflow".spec_bytes()[2] == 102);
    assert("reload".spec_bytes()[0] == 114);
    assert("reload".spec_bytes()[2] == 108);
    assert("reload-all".spec_bytes()[0] == 114);
    assert("reset-diff-change".spec_bytes()[0] == 114);
    assert("reset-diff-change".spec_bytes()[1] == 101);
    assert("rl".spec_bytes()[0] == 114);
    assert("rla".spec_bytes()[0] == 114);
    assert("run-shell-command".spec_bytes()[0] == 114);
    assert("run-shell-command".spec_bytes()[1] == 117);
    assert("set".spec_bytes()[0] == 115);
    assert("set-language".spec_bytes()[0] == 115);
    assert("set-option".spec_bytes()[0] == 115);
    assert("sh".spec_bytes()[0] == 115);
    assert("sh".spec_bytes()[1] == 104);
    assert("show-clipboard-provider".spec_bytes()[0] == 115);
    assert("show-directory".spec_bytes()[0] == 115);
    assert("sort".spec_bytes()[0] == 115);
    assert("sp".spec_bytes()[0] == 115);
    assert("sp".spec_bytes()[1] == 112);
    assert("theme".spec_bytes()[0] == 116);
    assert("theme".spec_bytes()[1] == 104);
    assert("toggle".spec_bytes()[0] == 116);
    assert("toggle-option".spec_bytes()[0] == 116);
    assert("tree-sitter-scopes".spec_bytes()[0] == 116);
    assert("tree-sitter-subtree".spec_bytes()[0] == 116);
    assert("ts-subtree".spec_bytes()[0] == 116);
    assert("tutor".spec_bytes()[0] == 116);
    assert("tutor".spec_bytes()[1] == 117);
    assert("u".spec_bytes()[0] == 117);
    assert("update".spec_bytes()[0] == 117);
    assert("vnew".spec_bytes()[0] == 118);
    assert("vs".spec_bytes()[0] == 118);
    assert("vsplit".spec_bytes()[0] == 118);
    assert("vsplit-new".spec_bytes()[0] == 118);
    assert("w".spec_bytes()[0] == 119);
    assert("w!".spec_bytes()[0] == 119);
    assert("w!".spec_bytes()[1] == 33);
    assert("wa".spec_bytes()[0] == 119);
    assert("wa".spec_bytes()[1] == 97);
    assert("wa!".spec_bytes()[0] == 119);
    assert("wa!".spec_bytes()[1] == 97);
    assert("wbc".spec_bytes()[0] == 119);
    assert("wbc".spec_bytes()[1] == 98);
    assert("wbc!".spec_bytes()[0] == 119);
    assert("wbc!".spec_bytes()[1] == 98);
    assert("wq".spec_bytes()[0] == 119);
    assert("wq".spec_bytes()[1] == 113);
    assert("wq!".spec_bytes()[0] == 119);
    assert("wq!".spec_bytes()[1] == 113);
    assert("wq!".spec_bytes()[2] == 33);
    assert("wqa".spec_bytes()[0] == 119);
    assert("wqa".spec_bytes()[1] == 113);
    assert("wqa".spec_bytes()[2] == 97);
    assert("wqa!".spec_bytes()[0] == 119);
    assert("wqa!".spec_bytes()[1] == 113);
    assert("write".spec_bytes()[0] == 119);
    assert("write!".spec_bytes()[0] == 119);
    assert("write-all".spec_bytes()[0] == 119);
    assert("write-all!".spec_bytes()[0] == 119);
    assert("write-all!".spec_bytes()[6] == 97);
    assert("write-buffer-close".spec_bytes()[0] == 119);
    assert("write-buffer-close!".spec_bytes()[0] == 119);
    assert("write-quit".spec_bytes()[0] == 119);
    assert("write-quit".spec_bytes()[6] == 113);
    assert("write-quit!".spec_bytes()[0] == 119);
    assert("write-quit-all".spec_bytes()[0] == 119);
    assert("write-quit-all!".spec_bytes()[0] == 119);
    assert("x".spec_bytes()[0] == 120);
    assert("x!".spec_bytes()[0] == 120);
    assert("x!".spec_bytes()[1] == 33);
    assert("xa".spec_bytes()[0] == 120);
    assert("xa".spec_bytes()[1] == 97);
    assert("xa!".spec_bytes()[0] == 120);
    assert("yank-diagnostic".spec_bytes()[0] == 121);
    assert("yank-join".spec_bytes()[0] == 121);
    assert forall|b: int, key: Seq<u8>|
        0 <= b < cmds.len() && #[trigger] cmd_has_key(&cmds[b], key) implies spec_default_owner(
        key,
    ) == b by {
        if b == 0 {
            assert(spec_default_owner(key) == 0);
        } else if b == 1 {
            assert(spec_default_owner(key) == 1);
        } else if b == 2 {
            assert(spec_default_owner(key) == 2);
        } else if b == 3 {
            assert(spec_default_owner(key) == 3);
        } else if b == 4 {
            assert(spec_default_owner(key) == 4);
        } else if b == 5 {
            assert(spec_default_owner(key) == 5);
        } else if b == 6 {
            assert(spec_default_owner(key) == 6);
        } else if b == 7 {
            assert(spec_default_owner(key) == 7);
        } else if b == 8 {
            assert(spec_default_owner(key) == 8);
        } else if b == 9 {
            assert(spec_default_owner(key) == 9);
        } else if b == 10 {
            assert(spec_default_owner(key) == 10);
        } else if b == 11 {
            assert(spec_default_owner(key) == 11);
        } else if b == 12 {
            assert(spec_default_owner(key) == 12);
        } else if b == 13 {
            assert(spec_default_owner(key) == 13);
        } else if b == 14 {
            assert(spec_default_owner(key) == 14);
        } else if b == 15 {
            assert(spec_default_owner(key) == 15);
        } else if b == 16 {
            assert(spec_default_owner(key) == 16);
        } else if b == 17 {
            assert(spec_default_owner(key) == 17);
        } else if b == 18 {
            assert(spec_default_owner(key) == 18);
        } else if b == 19 {
            assert(spec_default_owner(key) == 19);
        } else if b == 20 {
            assert(spec_default_owner(key) == 20);
        } else if b == 21 {
            assert(spec_default_owner(key) == 21);
        } else if b == 22 {
            assert(spec_default_owner(key) == 22);
        } else if b == 23 {
            assert(spec_default_owner(key) == 23);
        } else if b == 24 {
            assert(spec_default_owner(key) == 24);
        } else if b == 25 {
            assert(spec_default_owner(key) == 25);
        } else if b == 26 {
            assert(spec_default_owner(key) == 26);
        } else if b == 27 {
            assert(spec_default_owner(key) == 27);
        } else if b == 28 {
            assert(spec_default_owner(key) == 28);
        } else if b == 29 {
            assert(spec_default_owner(key) == 29);
        } else if b == 30 {
            assert(spec_default_owner(key) == 30);
        } else if b == 31 {
            assert(spec_default_owner(key) == 31);
        } else if b == 32 {
            assert(spec_default_owner(key) == 32);
        } else if b == 33 {
            assert(spec_default_owner(key) == 33);
        } else if b == 34 {
            assert(spec_default_owner(key) == 34);
        } else if b == 35 {
            assert(spec_default_owner(key) == 35);
        } else if b == 36 {
            assert(spec_default_owner(key) == 36);
        } else if b == 37 {
            assert(spec_default_owner(key) == 37);
        } else if b == 38 {
            assert(spec_default_owner(key) == 38);
        } else if b == 39 {
            assert(spec_default_owner(key) == 39);
        } else if b == 40 {
            assert(spec_default_owner(key) == 40);
        } else if b == 41 {
            assert(spec_default_owner(key) == 41);
        } else if b == 42 {
            assert(spec_default_owner(key) == 42);
        } else if b == 43 {
            assert(spec_default_owner(key) == 43);
        } else if b == 44 {
            assert(spec_default_owner(key) == 44);
        } else if b == 45 {
            assert(spec_default_owner(key) == 45);
        } else if b == 46 {
            assert(spec_default_owner(key) == 46);
        } else if b == 47 {
            assert(spec_default_owner(key) == 47);
        } else if b == 48 {
            assert(spec_default_owner(key) == 48);
        } else if b == 49 {
            assert(spec_default_owner(key) == 49);
        } else if b == 50 {
            assert(spec_default_owner(key) == 50);
        } else if b == 51 {
            assert(spec_default_owner(key) == 51);
        } else if b == 52 {
            assert(spec_default_owner(key) == 52);
        } else if b == 53 {
            assert(spec_default_owner(key) == 53);
        } else if b == 54 {
            assert(spec_default_owner(key) == 54);
        } else if b == 55 {
            assert(spec_default_owner(key) == 55);
        } else if b == 56 {
            assert(spec_default_owner(key) == 56);
        } else if b == 57 {
            assert(spec_default_owner(key) == 57);
        } else if b == 58 {
            assert(spec_default_owner(key) == 58);
        } else if b == 59 {
            assert(spec_default_owner(key) == 59);
        } else if b == 60 {
            assert(spec_default_owner(key) == 60);
        } else if b == 61 {
            assert(spec_default_owner(key) == 61);
        } else if b == 62 {
            assert(spec_default_owner(key) == 62);
        } else if b == 63 {
            assert(spec_default_owner(key) == 63);
        } else if b == 64 {
            assert(spec_default_owner(key) == 64);
        } else if b == 65 {
            assert(spec_default_owner(key) == 65);
        } else if b == 66 {
            assert(spec_default_owner(key) == 66);
        } else if b == 67 {
            assert(spec_default_owner(key) == 67);
        } else if b == 68 {
            assert(spec_default_owner(key) == 68);
        } else if b == 69 {
            assert(spec_default_owner(key) == 69);
        } else if b == 70 {
            assert(spec_default_owner(key) == 70);
        } else if b == 71 {
            assert(spec_default_owner(key) == 71);
        } else if b == 72 {
            assert(spec_default_owner(key) == 72);
        } else if b == 73 {
            assert(spec_default_owner(key) == 73);
        } else if b == 74 {
            assert(spec_default_owner(key) == 74);
        } else if b == 75 {
            assert(spec_default_owner(key) == 75);
        } else if b == 76 {
            assert(spec_default_owner(key) == 76);
        } else if b == 77 {
            assert(spec_default_owner(key) == 77);
        } else if b == 78 {
            assert(spec_default_owner(key) == 78);
        } else if b == 79 {
            assert(spec_default_owner(key) == 79);
        } else if b == 80 {
            assert(spec_default_owner(key) == 80);
        } else if b == 81 {
            assert(spec_default_owner(key) == 81);
        } else if b == 82 {
            assert(spec_default_owner(key) == 82);
        } else if b == 83 {
            assert(spec_default_owner(key) == 83);
        } else if b == 84 {
            assert(spec_default_owner(key) == 84);
        } else if b == 85 {
            assert(spec_default_owner(key) == 85);
        } else if b == 86 {
            assert(spec_default_owner(key) == 86);
        } else if b == 87 {
            assert(spec_default_owner(key) == 87);
        }
    }
}

/// Every declared arity of the built-in table has its minimum at or
/// below its maximum.
#[verifier::rlimit(100)]
proof fn lemma_default_signatures_wf(cmds: Seq<TypableCommand>)
    requires
        default_table_shape(cmds),
    ensures
        crate::registry::signatures_wf(cmds),
{
    assert(crate::registry::signatures_wf(cmds));
}

/// The built-in table is well-formed: no two of its commands claim the
/// same name or alias, and every declared arity has its minimum at or
/// below its maximum.
#[verifier::rlimit(100)]
proof fn lemma_default_table_wf(cmds: Seq<TypableCommand>)
    requires
        default_table_shape(cmds),
    ensures
        crate::registry::keys_unique(cmds),
        crate::registry::signatures_wf(cmds),
{
    lemma_default_owner(cmds);
    lemma_default_signatures_wf(cmds);
    assert forall|a: int, b: int, key: Seq<u8>|
        0 <= a < b < cmds.len() implies !(#[trigger] cmd_has_key(&cmds[a], key)
        && #[trigger] cmd_has_key(&cmds[b], key)) by {
        if cmd_has_key(&cmds[a], key) && cmd_has_key(&cmds[b], key) {
            assert(spec_default_owner(key) == a);
            assert(spec_default_owner(key) == b);
        }
    }
}

/// The built-in command table, as a registry. The table is proved free
/// of duplicate names and aliases and of malformed arities, so
/// construction always succeeds.
pub fn default_registry() -> (r: Result<CommandRegistry, Vec<u8>>)
    ensures
        r is Ok,
        r matches Ok(reg) ==> crate::registry::keys_unique(reg.commands@)
            && crate::registry::signatures_wf(reg.commands@) && reg.commands@.len() == 88,
{
    let commands = default_commands();
    proof {
        lemma_default_table_wf(commands@);
    }
    CommandRegistry::build(commands)
}

} // verus!
