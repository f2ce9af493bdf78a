//! Command descriptors and the registry that resolves names and aliases.
//!
//! A descriptor is the immutable registration record of one command: its
//! canonical name, its aliases, a one-line summary, its signature (flags,
//! positional arity, parse mode, completion set) and the handler that
//! performs its effect. The registry is built once from a descriptor list;
//! construction fails if two descriptors claim the same name or alias.

use vstd::prelude::*;
use vstd::string::StringSliceAdditionalSpecFns;
use crate::args::{Flag, ParseMode};
use crate::bytes;
use crate::completers::CompleterKind;
use crate::shellwords::word_views;

verus! {

/// The completion set of a command: one provider per leading positional
/// slot, and a fallback provider for every slot beyond the declared list.
pub struct CommandCompleter {
    pub positional_args: Vec<CompleterKind>,
    pub var_args: CompleterKind,
}

impl CommandCompleter {
    /// No completion for any argument.
    pub fn none() -> (r: CommandCompleter)
        ensures
            r.positional_args@.len() == 0,
            r.var_args == CompleterKind::NoCompletion,
    {
        CommandCompleter { positional_args: Vec::new(), var_args: CompleterKind::NoCompletion }
    }

    /// Per-position providers; slots beyond the list complete to nothing.
    pub fn positional(completers: Vec<CompleterKind>) -> (r: CommandCompleter)
        ensures
            r.positional_args@ == completers@,
            r.var_args == CompleterKind::NoCompletion,
    {
        CommandCompleter { positional_args: completers, var_args: CompleterKind::NoCompletion }
    }

    /// One provider for every argument.
    pub fn all(completer: CompleterKind) -> (r: CommandCompleter)
        ensures
            r.positional_args@.len() == 0,
            r.var_args == completer,
    {
        CommandCompleter { positional_args: Vec::new(), var_args: completer }
    }
}

/// The provider for positional slot `n`: the declared one when the slot is
/// within the per-position list, else the fallback.
pub open spec fn spec_completer_for(c: &CommandCompleter, n: int) -> CompleterKind {
    if 0 <= n < c.positional_args@.len() {
        c.positional_args@[n]
    } else {
        c.var_args
    }
}

/// What a command declares about its arguments.
pub struct CommandSignature {
    /// The flags the structured parser recognizes.
    pub flags: Vec<Flag>,
    /// Hint text for the arguments, shown in help.
    pub accepts: Option<Vec<u8>>,
    /// Positional arity: minimum, and optional maximum (`None` means
    /// unbounded).
    pub positionals: (usize, Option<usize>),
    /// Structured or literal argument parsing.
    pub parse_mode: ParseMode,
    /// Completion providers per argument slot.
    pub completer: CommandCompleter,
}

/// A declared maximum is never below the minimum.
pub open spec fn wf_signature(s: &CommandSignature) -> bool {
    match s.positionals.1 {
        Some(max) => s.positionals.0 <= max,
        None => true,
    }
}

/// The operation a command performs, dispatched on by the interpreter.
/// Operations on the editor model are interpreted internally; everything
/// whose effect lives outside the model (file input and output, processes,
/// language servers, the rendering layer) is handed to the surrounding
/// editor as a request carrying the parsed arguments.
#[derive(Clone, Copy, Debug, PartialEq, Eq, Structural)]
pub enum Handler {
    /// Close the focused view; refuses when it is the last view and
    /// modified buffers remain (unless forced).
    Quit { force: bool },
    /// Close buffers: the ones named, the others, or all of them.
    BufferClose { force: bool, target: CloseTarget },
    /// Focus the next buffer.
    BufferNext,
    /// Focus the previous buffer.
    BufferPrevious,
    /// Save every modified buffer, then optionally close all views.
    WriteAll { force: bool, quit: bool },
    /// Close all views; refuses while modified buffers remain (unless
    /// forced).
    QuitAll { force: bool },
    /// Close all views with an explicit process exit code.
    CQuit { force: bool },
    /// Move the cursor to a line, with live preview.
    GotoLineNumber,
    /// Show the value of a configuration option.
    GetOption,
    /// Set a configuration option.
    SetOption,
    /// Toggle a configuration option between candidate values.
    ToggleOption,
    /// Echo the first argument to the status line.
    Echo,
    /// Open a fresh scratch buffer in the focused view.
    NewFile,
    /// Effect outside the editor model: the interpreter validates and
    /// parses, the surrounding editor performs.
    External,
}

/// Which buffers a close operation gathers.
#[derive(Clone, Copy, Debug, PartialEq, Eq, Structural)]
pub enum CloseTarget {
    /// The buffers named by the positional arguments, or the focused one.
    Named,
    /// Every buffer but the focused one.
    Others,
    /// Every buffer.
    All,
}

/// The immutable registration record of one command.
pub struct TypableCommand {
    /// Canonical name, unique across the registry.
    pub name: Vec<u8>,
    /// Aliases, each unique across the whole registry.
    pub aliases: Vec<Vec<u8>>,
    /// One-line summary for help rendering.
    pub doc: Vec<u8>,
    /// Argument grammar and completion.
    pub signature: CommandSignature,
    /// The operation dispatched for this command.
    pub fun: Handler,
}

/// A failed arity check, tailored to the declared (min, max) case.
pub enum ArityError {
    /// Declared `(0, Some(0))` but arguments were given.
    TakesNoArguments { name: Vec<u8> },
    /// Declared `(min, Some(min))` with another count given.
    NeedsExactly { name: Vec<u8>, min: usize, got: usize },
    /// Declared `(min, Some(max))` with `min < max` and a count outside.
    NeedsBetween { name: Vec<u8>, min: usize, max: usize, got: usize },
    /// Declared `(min, None)` with fewer than `min` given.
    NeedsAtLeast { name: Vec<u8>, min: usize, got: usize },
}

impl ArityError {
    /// The single-line status text of this error.
    pub fn message(&self) -> (r: Vec<u8>)
        ensures
            r@ == spec_arity_message(self),
    {
        let mut r: Vec<u8> = Vec::new();
        match self {
            ArityError::TakesNoArguments { name } => {
                bytes::extend_str(&mut r, "`:");
                bytes::extend(&mut r, name.as_slice());
                bytes::extend_str(&mut r, "` doesn't take any arguments");
            },
            ArityError::NeedsExactly { name, min, got } => {
                bytes::extend_str(&mut r, "`:");
                bytes::extend(&mut r, name.as_slice());
                bytes::extend_str(&mut r, "` needs exactly ");
                let d = bytes::decimal(*min);
                bytes::extend(&mut r, d.as_slice());
                bytes::extend_str(&mut r, " argument(s), got ");
                let g = bytes::decimal(*got);
                bytes::extend(&mut r, g.as_slice());
            },
            ArityError::NeedsBetween { name, min, max, got } => {
                bytes::extend_str(&mut r, "`:");
                bytes::extend(&mut r, name.as_slice());
                bytes::extend_str(&mut r, "` needs between ");
                let d = bytes::decimal(*min);
                bytes::extend(&mut r, d.as_slice());
                bytes::extend_str(&mut r, " and ");
                let m = bytes::decimal(*max);
                bytes::extend(&mut r, m.as_slice());
                bytes::extend_str(&mut r, " arguments, got ");
                let g = bytes::decimal(*got);
                bytes::extend(&mut r, g.as_slice());
            },
            ArityError::NeedsAtLeast { name, min, got } => {
                bytes::extend_str(&mut r, "`:");
                bytes::extend(&mut r, name.as_slice());
                bytes::extend_str(&mut r, "` needs at least ");
                let d = bytes::decimal(*min);
                bytes::extend(&mut r, d.as_slice());
                bytes::extend_str(&mut r, " argument(s), got ");
                let g = bytes::decimal(*got);
                bytes::extend(&mut r, g.as_slice());
            },
        }
        assert(r@ =~= spec_arity_message(self));
        r
    }
}

/// The exact status text of each arity error.
pub open spec fn spec_arity_message(e: &ArityError) -> Seq<u8> {
    match e {
        ArityError::TakesNoArguments { name } => "`:".spec_bytes() + name@
            + "` doesn't take any arguments".spec_bytes(),
        ArityError::NeedsExactly { name, min, got } => "`:".spec_bytes() + name@
            + "` needs exactly ".spec_bytes() + bytes::spec_decimal(*min as nat)
            + " argument(s), got ".spec_bytes() + bytes::spec_decimal(*got as nat),
        ArityError::NeedsBetween { name, min, max, got } => "`:".spec_bytes() + name@
            + "` needs between ".spec_bytes() + bytes::spec_decimal(*min as nat)
            + " and ".spec_bytes() + bytes::spec_decimal(*max as nat)
            + " arguments, got ".spec_bytes() + bytes::spec_decimal(*got as nat),
        ArityError::NeedsAtLeast { name, min, got } => "`:".spec_bytes() + name@
            + "` needs at least ".spec_bytes() + bytes::spec_decimal(*min as nat)
            + " argument(s), got ".spec_bytes() + bytes::spec_decimal(*got as nat),
    }
}

/// Whether `count` positional arguments satisfy the arity `(min, max)`.
pub open spec fn arity_ok(min: usize, max: Option<usize>, count: usize) -> bool {
    match max {
        Some(m) => min <= count <= m,
        None => count >= min,
    }
}

impl TypableCommand {
    /// Checks a resolved positional-argument count against the declared
    /// arity, with an error message tailored to the (min, max) case.
    ///
    /// A command declared `(0, Some(0))` accepts exactly zero arguments;
    /// one declared `(min, Some(min))` exactly `min`; one declared
    /// `(min, Some(max))` any count between the bounds; one declared
    /// `(min, None)` any count of at least `min`, however large.
    pub fn ensure_signature(&self, count: usize) -> (r: Result<(), ArityError>)
        requires
            wf_signature(&self.signature),
        ensures
            r is Ok <==> arity_ok(self.signature.positionals.0, self.signature.positionals.1, count),
            r matches Err(e) ==> match e {
                ArityError::TakesNoArguments { name } => name@ == self.name@
                    && self.signature.positionals == (0usize, Some(0usize)) && count != 0,
                ArityError::NeedsExactly { name, min, got } => name@ == self.name@ && got == count
                    && self.signature.positionals == (min, Some(min)) && min > 0 && count != min,
                ArityError::NeedsBetween { name, min, max, got } => name@ == self.name@
                    && got == count && self.signature.positionals == (min, Some(max)) && min < max
                    && !(min <= count <= max),
                ArityError::NeedsAtLeast { name, min, got } => name@ == self.name@ && got == count
                    && self.signature.positionals == (min, None::<usize>) && count < min,
            },
    {
        let (min, max) = self.signature.positionals;
        match max {
            Some(m) => {
                if min == 0 && m == 0 {
                    if count == 0 {
                        Ok(())
                    } else {
                        Err(ArityError::TakesNoArguments { name: bytes::to_vec(self.name.as_slice()) })
                    }
                } else if min == m {
                    if count == min {
                        Ok(())
                    } else {
                        Err(ArityError::NeedsExactly {
                            name: bytes::to_vec(self.name.as_slice()),
                            min,
                            got: count,
                        })
                    }
                } else {
                    if min <= count && count <= m {
                        Ok(())
                    } else {
                        Err(ArityError::NeedsBetween {
                            name: bytes::to_vec(self.name.as_slice()),
                            min,
                            max: m,
                            got: count,
                        })
                    }
                }
            },
            None => {
                if count >= min {
                    Ok(())
                } else {
                    Err(ArityError::NeedsAtLeast {
                        name: bytes::to_vec(self.name.as_slice()),
                        min,
                        got: count,
                    })
                }
            },
        }
    }

    /// The completion provider for positional slot `n`.
    pub fn completer_for_argument_number(&self, n: usize) -> (r: CompleterKind)
        ensures
            r == spec_completer_for(&self.signature.completer, n as int),
    {
        if n < self.signature.completer.positional_args.len() {
            self.signature.completer.positional_args[n]
        } else {
            self.signature.completer.var_args
        }
    }

    /// Renders the help line of this command, exactly as [`spec_prompt`]
    /// lays it out: the name, a flags marker when flags are declared, the
    /// accepts hint, the summary, and one line per alias and per flag.
    #[verifier::rlimit(50)]
    pub fn prompt(&self) -> (r: Vec<u8>)
        ensures
            r@ == spec_prompt(self),
    {
        let mut r: Vec<u8> = Vec::new();
        bytes::extend(&mut r, self.name.as_slice());
        if self.signature.flags.len() > 0 {
            bytes::extend_str(&mut r, " [<flags>]");
        }
        match &self.signature.accepts {
            Some(accepts) => {
                bytes::extend_str(&mut r, " ");
                bytes::extend(&mut r, accepts.as_slice());
            },
            None => {},
        }
        bytes::extend_str(&mut r, ": ");
        bytes::extend(&mut r, self.doc.as_slice());
        let ghost head = spec_prompt_head(self);
        assert(r@ =~= head);
        if self.aliases.len() > 0 {
            bytes::extend_str(&mut r, "\naliases:");
            let ghost av = word_views(self.aliases@);
            let mut i: usize = 0;
            assert(av.take(0int) =~= Seq::<Seq<u8>>::empty());
            while i < self.aliases.len()
                invariant
                    0 <= i <= self.aliases@.len(),
                    av == word_views(self.aliases@),
                    av.len() == self.aliases@.len(),
                    r@ == head + "\naliases:".spec_bytes() + spec_alias_lines(av.take(i as int)),
                decreases self.aliases@.len() - i,
            {
                proof {
                    assert(av.take(i + 1).drop_last() =~= av.take(i as int));
                    assert(av.take(i + 1).last() == av[i as int]);
                    assert(av[i as int] == self.aliases@[i as int]@);
                }
                bytes::extend_str(&mut r, "\n    ");
                bytes::extend(&mut r, self.aliases[i].as_slice());
                assert(r@ =~= head + "\naliases:".spec_bytes() + spec_alias_lines(
                    av.take(i + 1),
                ));
                i += 1;
            }
            assert(av.take(self.aliases@.len() as int) =~= av);
        }
        let ghost with_aliases = head + (if self.aliases@.len() > 0 {
            "\naliases:".spec_bytes() + spec_alias_lines(word_views(self.aliases@))
        } else {
            Seq::<u8>::empty()
        });
        assert(r@ =~= with_aliases);
        if self.signature.flags.len() > 0 {
            bytes::extend_str(&mut r, "\nflags:");
            let ghost fs = self.signature.flags@;
            let mut i: usize = 0;
            assert(fs.take(0int) =~= Seq::<Flag>::empty());
            while i < self.signature.flags.len()
                invariant
                    0 <= i <= fs.len(),
                    fs == self.signature.flags@,
                    r@ == with_aliases + "\nflags:".spec_bytes() + spec_flag_lines(
                        fs.take(i as int),
                    ),
                decreases fs.len() - i,
            {
                proof {
                    assert(fs.take(i + 1).drop_last() =~= fs.take(i as int));
                    assert(fs.take(i + 1).last() == fs[i as int]);
                }
                bytes::extend_str(&mut r, "\n    --");
                bytes::extend(&mut r, self.signature.flags[i].long.as_slice());
                match &self.signature.flags[i].short {
                    Some(short) => {
                        bytes::extend_str(&mut r, ", -");
                        bytes::extend(&mut r, short.as_slice());
                    },
                    None => {},
                }
                match &self.signature.flags[i].accepts {
                    Some(accepts) => {
                        bytes::extend_str(&mut r, " ");
                        bytes::extend(&mut r, accepts.as_slice());
                    },
                    None => {},
                }
                bytes::extend_str(&mut r, "  ");
                bytes::extend(&mut r, self.signature.flags[i].desc.as_slice());
                assert(r@ =~= with_aliases + "\nflags:".spec_bytes() + spec_flag_lines(
                    fs.take(i + 1),
                ));
                i += 1;
            }
            assert(fs.take(fs.len() as int) =~= fs);
        }
        assert(r@ =~= spec_prompt(self));
        r
    }
}

/// The head of a help line: the name, the flags marker when flags are
/// declared, the accepts hint, and the summary.
pub open spec fn spec_prompt_head(c: &TypableCommand) -> Seq<u8> {
    c.name@ + (if c.signature.flags@.len() > 0 {
        " [<flags>]".spec_bytes()
    } else {
        Seq::<u8>::empty()
    }) + (match c.signature.accepts {
        Some(a) => " ".spec_bytes() + a@,
        None => Seq::<u8>::empty(),
    }) + ": ".spec_bytes() + c.doc@
}

/// The whole help line of a command: the head, then one indented line per
/// alias under an `aliases:` heading, then one line per flag (its long
/// name, the short alias and value hint when present, and its
/// description) under a `flags:` heading.
pub open spec fn spec_prompt(c: &TypableCommand) -> Seq<u8> {
    spec_prompt_head(c) + (if c.aliases@.len() > 0 {
        "\naliases:".spec_bytes() + spec_alias_lines(word_views(c.aliases@))
    } else {
        Seq::<u8>::empty()
    }) + (if c.signature.flags@.len() > 0 {
        "\nflags:".spec_bytes() + spec_flag_lines(c.signature.flags@)
    } else {
        Seq::<u8>::empty()
    })
}

/// One indented line per alias.
pub open spec fn spec_alias_lines(aliases: Seq<Seq<u8>>) -> Seq<u8>
    decreases aliases.len(),
{
    if aliases.len() == 0 {
        Seq::empty()
    } else {
        spec_alias_lines(aliases.drop_last()) + "\n    ".spec_bytes() + aliases.last()
    }
}

/// One line per flag.
pub open spec fn spec_flag_lines(flags: Seq<Flag>) -> Seq<u8>
    decreases flags.len(),
{
    if flags.len() == 0 {
        Seq::empty()
    } else {
        spec_flag_lines(flags.drop_last()) + spec_flag_line(flags.last())
    }
}

/// The help line of one flag: `--long`, `, -s` when a short alias is
/// declared, the value hint when the flag carries a value, and the
/// description.
pub open spec fn spec_flag_line(f: Flag) -> Seq<u8> {
    "\n    --".spec_bytes() + f.long@ + (match f.short {
        Some(s) => ", -".spec_bytes() + s@,
        None => Seq::<u8>::empty(),
    }) + (match f.accepts {
        Some(a) => " ".spec_bytes() + a@,
        None => Seq::<u8>::empty(),
    }) + "  ".spec_bytes() + f.desc@
}

/// Whether `key` is the name or one of the aliases of `c`.
pub open spec fn cmd_has_key(c: &TypableCommand, key: Seq<u8>) -> bool {
    c.name@ == key || word_views(c.aliases@).contains(key)
}

/// The first descriptor claiming `key`.
pub open spec fn spec_resolve(cmds: Seq<TypableCommand>, key: Seq<u8>) -> Option<int>
    decreases cmds.len(),
{
    if cmds.len() == 0 {
        None
    } else if cmd_has_key(&cmds[0], key) {
        Some(0int)
    } else {
        match spec_resolve(cmds.drop_first(), key) {
            Some(k) => Some(k + 1),
            None => None,
        }
    }
}

/// Every declared signature is well-formed.
pub open spec fn signatures_wf(cmds: Seq<TypableCommand>) -> bool {
    forall|k: int| 0 <= k < cmds.len() ==> wf_signature(&(#[trigger] cmds[k]).signature)
}

/// No two descriptors claim the same key.
pub open spec fn keys_unique(cmds: Seq<TypableCommand>) -> bool {
    forall|i: int, j: int, key: Seq<u8>|
        0 <= i < j < cmds.len() ==> !(#[trigger] cmd_has_key(&cmds[i], key)
            && #[trigger] cmd_has_key(&cmds[j], key))
}

/// The registry: an immutable descriptor list resolved by name or alias.
pub struct CommandRegistry {
    pub commands: Vec<TypableCommand>,
}

impl CommandRegistry {
    /// Wraps a descriptor list, refusing one in which two descriptors
    /// claim the same name or alias: duplicate keys are a
    /// construction-time defect, not a runtime error.
    pub fn build(commands: Vec<TypableCommand>) -> (r: Result<CommandRegistry, Vec<u8>>)
        ensures
            r is Ok <==> keys_unique(commands@) && signatures_wf(commands@),
            r matches Ok(reg) ==> reg.commands@ == commands@,
    {
        let n: usize = commands.len();
        let mut w: usize = 0;
        while w < n
            invariant
                0 <= w <= n,
                n == commands@.len(),
                forall|k: int| 0 <= k < w ==> wf_signature(&(#[trigger] commands@[k]).signature),
            decreases n - w,
        {
            let (min, max) = commands[w].signature.positionals;
            let ok: bool = match max {
                Some(m) => min <= m,
                None => true,
            };
            if !ok {
                proof {
                    assert(!wf_signature(&commands@[w as int].signature));
                    assert(!signatures_wf(commands@));
                }
                let mut msg: Vec<u8> = Vec::new();
                bytes::extend_str(&mut msg, "signature declares a maximum below the minimum: ");
                bytes::extend(&mut msg, commands[w].name.as_slice());
                return Err(msg);
            }
            w += 1;
        }
        let mut i: usize = 0;
        while i < n
            invariant
                0 <= i <= n,
                n == commands@.len(),
                forall|a: int, b: int, key: Seq<u8>|
                    0 <= a < b < i ==> !(#[trigger] cmd_has_key(&commands@[a], key)
                        && #[trigger] cmd_has_key(&commands@[b], key)),
            decreases n - i,
        {
            let mut j: usize = 0;
            while j < i
                invariant
                    0 <= j <= i < n,
                    n == commands@.len(),
                    forall|b: int, key: Seq<u8>|
                        0 <= b < j ==> !(#[trigger] cmd_has_key(&commands@[b], key)
                            && #[trigger] cmd_has_key(&commands@[i as int], key)),
                decreases i - j,
            {
                match commands_share_key(&commands[j], &commands[i]) {
                    Some(key) => {
                        proof {
                            let shared = choose|k2: Seq<u8>|
                                cmd_has_key(&commands@[j as int], k2) && cmd_has_key(
                                    &commands@[i as int],
                                    k2,
                                );
                            assert(!keys_unique(commands@)) by {
                                assert(cmd_has_key(&commands@[j as int], shared));
                                assert(cmd_has_key(&commands@[i as int], shared));
                            }
                        }
                        let mut msg: Vec<u8> = Vec::new();
                        bytes::extend_str(&mut msg, "duplicate command name or alias: ");
                        bytes::extend(&mut msg, key.as_slice());
                        return Err(msg);
                    },
                    None => {},
                }
                j += 1;
            }
            i += 1;
        }
        assert forall|a: int, b: int, key: Seq<u8>|
            0 <= a < b < commands@.len() implies !(#[trigger] cmd_has_key(&commands@[a], key)
            && #[trigger] cmd_has_key(&commands@[b], key)) by {}
        Ok(CommandRegistry { commands })
    }

    /// Resolves a command token to its descriptor.
    pub fn resolve(&self, key: &[u8]) -> (r: Option<&TypableCommand>)
        ensures
            match spec_resolve(self.commands@, key@) {
                Some(k) => r matches Some(c) && 0 <= k < self.commands@.len() && *c
                    == self.commands@[k],
                None => r is None,
            },
    {
        let mut i: usize = 0;
        assert(self.commands@.skip(0int) =~= self.commands@);
        while i < self.commands.len()
            invariant
                0 <= i <= self.commands@.len(),
                spec_resolve(self.commands@, key@) == (match spec_resolve(
                    self.commands@.skip(i as int),
                    key@,
                ) {
                    Some(k) => Some(k + i),
                    None => None::<int>,
                }),
            decreases self.commands@.len() - i,
        {
            proof {
                assert(self.commands@.skip(i as int)[0] == self.commands@[i as int]);
                assert(self.commands@.skip(i as int).drop_first() =~= self.commands@.skip(i + 1));
            }
            if has_key(&self.commands[i], key) {
                return Some(&self.commands[i]);
            }
            i += 1;
        }
        assert(self.commands@.skip(i as int) =~= Seq::<TypableCommand>::empty());
        None
    }

    /// How many commands are registered.
    pub fn len(&self) -> (r: usize)
        ensures
            r == self.commands@.len(),
    {
        self.commands.len()
    }

    /// The descriptor at `i`, for help listings.
    pub fn get(&self, i: usize) -> (r: &TypableCommand)
        requires
            i < self.commands@.len(),
        ensures
            *r == self.commands@[i as int],
    {
        &self.commands[i]
    }
}

/// Whether `key` is the name or an alias of `c`.
pub fn has_key(c: &TypableCommand, key: &[u8]) -> (r: bool)
    ensures
        r == cmd_has_key(c, key@),
{
    if bytes::bytes_eq(c.name.as_slice(), key) {
        return true;
    }
    let mut i: usize = 0;
    while i < c.aliases.len()
        invariant
            0 <= i <= c.aliases@.len(),
            forall|j: int| 0 <= j < i ==> word_views(c.aliases@)[j] != key@,
            c.name@ != key@,
        decreases c.aliases@.len() - i,
    {
        assert(word_views(c.aliases@)[i as int] == c.aliases@[i as int]@);
        if bytes::bytes_eq(c.aliases[i].as_slice(), key) {
            assert(word_views(c.aliases@).contains(key@));
            return true;
        }
        i += 1;
    }
    assert forall|j: int| 0 <= j < word_views(c.aliases@).len() implies word_views(c.aliases@)[j]
        != key@ by {}
    assert(!word_views(c.aliases@).contains(key@));
    false
}

/// A key that `a` and `b` both claim, if any.
fn commands_share_key(a: &TypableCommand, b: &TypableCommand) -> (r: Option<Vec<u8>>)
    ensures
        r is Some ==> (exists|key: Seq<u8>| cmd_has_key(a, key) && cmd_has_key(b, key)),
        r is None ==> (forall|key: Seq<u8>| !(cmd_has_key(a, key) && cmd_has_key(b, key))),
{
    if has_key(b, a.name.as_slice()) {
        return Some(bytes::to_vec(a.name.as_slice()));
    }
    let mut i: usize = 0;
    while i < a.aliases.len()
        invariant
            0 <= i <= a.aliases@.len(),
            !cmd_has_key(b, a.name@),
            forall|j: int| 0 <= j < i ==> !cmd_has_key(b, #[trigger] word_views(a.aliases@)[j]),
        decreases a.aliases@.len() - i,
    {
        assert(word_views(a.aliases@)[i as int] == a.aliases@[i as int]@);
        if has_key(b, a.aliases[i].as_slice()) {
            assert(word_views(a.aliases@).contains(a.aliases@[i as int]@));
            return Some(bytes::to_vec(a.aliases[i].as_slice()));
        }
        i += 1;
    }
    assert forall|key: Seq<u8>| !(cmd_has_key(a, key) && cmd_has_key(b, key)) by {
        if cmd_has_key(a, key) && cmd_has_key(b, key) {
            if a.name@ == key {
            } else {
                let j = choose|j: int|
                    0 <= j < word_views(a.aliases@).len() && word_views(a.aliases@)[j] == key;
                assert(!cmd_has_key(b, word_views(a.aliases@)[j]));
            }
        }
    }
    None
}

/// Every key a registered descriptor claims resolves, and resolves to that
/// very descriptor; this holds for the canonical name and for every alias
/// of every descriptor in a well-formed registry.
pub proof fn lemma_registry_resolves_own_keys(cmds: Seq<TypableCommand>, i: int, key: Seq<u8>)
    requires
        keys_unique(cmds),
        0 <= i < cmds.len(),
        cmd_has_key(&cmds[i], key),
    ensures
        spec_resolve(cmds, key) == Some(i),
    decreases cmds.len(),
{
    if i == 0 {
    } else {
        assert(!cmd_has_key(&cmds[0], key));
        let t = cmds.drop_first();
        assert forall|a: int, b: int, k2: Seq<u8>|
            0 <= a < b < t.len() implies !(#[trigger] cmd_has_key(&t[a], k2)
            && #[trigger] cmd_has_key(&t[b], k2)) by {
            assert(t[a] == cmds[a + 1]);
            assert(t[b] == cmds[b + 1]);
            assert(!(cmd_has_key(&cmds[a + 1], k2) && cmd_has_key(&cmds[b + 1], k2)));
        }
        assert(t[i - 1] == cmds[i]);
        lemma_registry_resolves_own_keys(t, i - 1, key);
    }
}

/// A resolved key is claimed by the descriptor it resolves to: the
/// descriptor's own name or alias list actually contains the key.
pub proof fn lemma_resolve_sound(cmds: Seq<TypableCommand>, key: Seq<u8>)
    ensures
        spec_resolve(cmds, key) matches Some(k) ==> 0 <= k < cmds.len() && cmd_has_key(
            &cmds[k],
            key,
        ),
    decreases cmds.len(),
{
    if cmds.len() > 0 && !cmd_has_key(&cmds[0], key) {
        lemma_resolve_sound(cmds.drop_first(), key);
        let t = cmds.drop_first();
        match spec_resolve(t, key) {
            Some(k) => {
                assert(t[k] == cmds[k + 1]);
            },
            None => {},
        }
    }
}

} // verus!
