//! Parsing the word sequence of a line into positional arguments and flags.
//!
//! A command declares a set of flags and a parse mode. In structured mode
//! every word shaped like a flag (`--name` or `-n`) must match a declared
//! flag and is consumed, together with the following word when the flag
//! carries a value; all other words become positional arguments in order.
//! In literal mode the whole remainder of the line is one verbatim
//! positional argument, so that text destined for an external interpreter
//! keeps its spacing and its `-`-prefixed tokens.

use vstd::prelude::*;
use crate::bytes;
use crate::completers::CompleterKind;
use crate::shellwords::{spec_words, split_words, word_views};

verus! {

/// A declared flag of a command signature.
pub struct Flag {
    /// Long name, matched as `--long`.
    pub long: Vec<u8>,
    /// Optional short alias, matched as `-s`.
    pub short: Option<Vec<u8>>,
    /// One-line description for help rendering.
    pub desc: Vec<u8>,
    /// Value placeholder; a flag with one consumes the following word.
    pub accepts: Option<Vec<u8>>,
    /// Dedicated completion provider for the flag's value, if any.
    pub completer: Option<CompleterKind>,
}

/// How the words after the command token are consumed.
#[derive(Clone, Copy, Debug, PartialEq, Eq, Structural)]
pub enum ParseMode {
    /// Flags are recognized; remaining words are positional arguments.
    Structured,
    /// The whole remainder is one verbatim positional argument.
    Literal,
}

/// A flag occurrence in parsed arguments: the declared long name and the
/// value word, if the flag carries one.
pub struct FlagHit {
    pub name: Vec<u8>,
    pub value: Option<Vec<u8>>,
}

/// Mathematical image of [`FlagHit`].
#[verifier::ext_equal]
pub ghost struct FlagHitView {
    pub name: Seq<u8>,
    pub value: Option<Seq<u8>>,
}

impl View for FlagHit {
    type V = FlagHitView;

    open spec fn view(&self) -> FlagHitView {
        (FlagHitView {
            name: self.name@,
            value: match self.value {
                Some(v) => Some(v@),
                None => None,
            },
        })
    }
}

/// Parsed arguments: positional words in input order, and the flags that
/// matched, in input order. Accessors treat the flag list as a set keyed
/// by long name, a later occurrence shadowing an earlier one.
pub struct Args {
    pub positionals: Vec<Vec<u8>>,
    pub flags: Vec<FlagHit>,
}

/// Mathematical image of [`Args`].
#[verifier::ext_equal]
pub ghost struct ArgsView {
    pub positionals: Seq<Seq<u8>>,
    pub flags: Seq<FlagHitView>,
}

impl View for Args {
    type V = ArgsView;

    open spec fn view(&self) -> ArgsView {
        (ArgsView {
            positionals: word_views(self.positionals@),
            flags: self.flags@.map_values(|h: FlagHit| h@),
        })
    }
}

/// A malformed flag use.
#[derive(Debug)]
pub enum ParseError {
    /// A word shaped like a flag matched no declared flag.
    UnknownFlag(Vec<u8>),
    /// A flag that carries a value stood last on the line.
    FlagValueError(Vec<u8>),
}

/// Mathematical image of [`ParseError`].
#[verifier::ext_equal]
pub ghost enum ParseErrorView {
    UnknownFlag(Seq<u8>),
    FlagValueError(Seq<u8>),
}

impl View for ParseError {
    type V = ParseErrorView;

    open spec fn view(&self) -> ParseErrorView {
        match self {
            ParseError::UnknownFlag(w) => ParseErrorView::UnknownFlag(w@),
            ParseError::FlagValueError(w) => ParseErrorView::FlagValueError(w@),
        }
    }
}

/// A word shaped like a long flag: `--` followed by a name.
pub open spec fn is_long_token(w: Seq<u8>) -> bool {
    w.len() > 2 && w[0] == 45 && w[1] == 45
}

/// A word shaped like a short flag: `-` followed by anything but `-`.
pub open spec fn is_short_token(w: Seq<u8>) -> bool {
    w.len() >= 2 && w[0] == 45 && w[1] != 45
}

/// Index of the declared flag with long name `name`.
pub open spec fn spec_find_long(decls: Seq<Flag>, name: Seq<u8>) -> Option<int>
    decreases decls.len(),
{
    if decls.len() == 0 {
        None
    } else if decls[0].long@ == name {
        Some(0int)
    } else {
        match spec_find_long(decls.drop_first(), name) {
            Some(k) => Some(k + 1),
            None => None,
        }
    }
}

/// Index of the declared flag with short alias `name`.
pub open spec fn spec_find_short(decls: Seq<Flag>, name: Seq<u8>) -> Option<int>
    decreases decls.len(),
{
    if decls.len() == 0 {
        None
    } else if decls[0].short matches Some(s) && s@ == name {
        Some(0int)
    } else {
        match spec_find_short(decls.drop_first(), name) {
            Some(k) => Some(k + 1),
            None => None,
        }
    }
}

pub proof fn lemma_find_long_bounds(decls: Seq<Flag>, name: Seq<u8>)
    ensures
        spec_find_long(decls, name) matches Some(k) ==> 0 <= k < decls.len(),
        spec_find_short(decls, name) matches Some(k) ==> 0 <= k < decls.len(),
    decreases decls.len(),
{
    if decls.len() > 0 {
        lemma_find_long_bounds(decls.drop_first(), name);
    }
}

/// Structured parsing of a word sequence, leftmost word first.
pub open spec fn spec_parse_structured(words: Seq<Seq<u8>>, decls: Seq<Flag>) -> Result<
    ArgsView,
    ParseErrorView,
>
    decreases words.len(), 1int,
{
    if words.len() == 0 {
        Ok(ArgsView { positionals: Seq::empty(), flags: Seq::empty() })
    } else {
        let w = words[0];
        if is_long_token(w) {
            spec_parse_flag(words, decls, spec_find_long(decls, w.skip(2)))
        } else if is_short_token(w) {
            spec_parse_flag(words, decls, spec_find_short(decls, w.skip(1)))
        } else {
            match spec_parse_structured(words.drop_first(), decls) {
                Ok(a) => Ok(ArgsView { positionals: seq![w] + a.positionals, flags: a.flags }),
                Err(e) => Err(e),
            }
        }
    }
}

/// The flag-word case of [`spec_parse_structured`]: consume the flag word
/// and, for a value-carrying flag, the word after it.
pub open spec fn spec_parse_flag(
    words: Seq<Seq<u8>>,
    decls: Seq<Flag>,
    hit: Option<int>,
) -> Result<ArgsView, ParseErrorView>
    recommends
        words.len() > 0,
        hit matches Some(k) ==> 0 <= k < decls.len(),
    decreases words.len(), 0int,
    when words.len() > 0
{
    match hit {
        None => Err(ParseErrorView::UnknownFlag(words[0])),
        Some(k) => {
            let d = decls[k];
            if d.accepts is Some {
                if words.len() < 2 {
                    Err(ParseErrorView::FlagValueError(d.long@))
                } else {
                    match spec_parse_structured(words.skip(2), decls) {
                        Ok(a) => Ok(
                            ArgsView {
                                positionals: a.positionals,
                                flags: seq![
                                    (FlagHitView { name: d.long@, value: Some(words[1]) }),
                                ] + a.flags,
                            },
                        ),
                        Err(e) => Err(e),
                    }
                }
            } else {
                match spec_parse_structured(words.drop_first(), decls) {
                    Ok(a) => Ok(
                        ArgsView {
                            positionals: a.positionals,
                            flags: seq![(FlagHitView { name: d.long@, value: None })] + a.flags,
                        },
                    ),
                    Err(e) => Err(e),
                }
            }
        },
    }
}

/// Literal parsing: the remainder, verbatim, is the one positional
/// argument; an empty remainder yields no arguments. No flag is ever
/// recognized, so no `-`-prefixed token can fail to parse.
pub open spec fn spec_parse_literal(rest: Seq<u8>) -> ArgsView {
    (ArgsView {
        positionals: if rest.len() == 0 {
            Seq::empty()
        } else {
            seq![rest]
        },
        flags: Seq::empty(),
    })
}

impl Args {
    /// Arguments of an empty line.
    pub fn empty() -> (r: Args)
        ensures
            r@.positionals.len() == 0,
            r@.flags.len() == 0,
    {
        let r = Args { positionals: Vec::new(), flags: Vec::new() };
        assert(r@.positionals =~= Seq::<Seq<u8>>::empty());
        assert(r@.flags =~= Seq::<FlagHitView>::empty());
        r
    }

    /// Number of positional arguments.
    pub fn len(&self) -> (r: usize)
        ensures
            r == self@.positionals.len(),
    {
        self.positionals.len()
    }

    pub fn is_empty(&self) -> (r: bool)
        ensures
            r == (self@.positionals.len() == 0),
    {
        self.positionals.len() == 0
    }

    /// The `i`-th positional argument.
    pub fn get(&self, i: usize) -> (r: &Vec<u8>)
        requires
            i < self@.positionals.len(),
        ensures
            r@ == self@.positionals[i as int],
    {
        &self.positionals[i]
    }

    /// The first positional argument, if any.
    pub fn first(&self) -> (r: Option<&Vec<u8>>)
        ensures
            self@.positionals.len() == 0 ==> r is None,
            self@.positionals.len() > 0 ==> (r matches Some(v) && v@ == self@.positionals[0]),
    {
        if self.positionals.len() == 0 {
            None
        } else {
            Some(&self.positionals[0])
        }
    }

    /// Whether a flag with long name `name` matched.
    pub fn has_flag(&self, name: &[u8]) -> (r: bool)
        ensures
            r == spec_has_flag(self@, name@),
    {
        let mut i: usize = 0;
        while i < self.flags.len()
            invariant
                0 <= i <= self.flags@.len(),
                forall|j: int| 0 <= j < i ==> #[trigger] self@.flags[j].name != name@,
                self@.flags.len() == self.flags@.len(),
        decreases self.flags@.len() - i,
        {
            assert(self@.flags[i as int] == self.flags@[i as int]@);
            if bytes::bytes_eq(self.flags[i].name.as_slice(), name) {
                assert(self@.flags[i as int].name == name@);
                return true;
            }
            i += 1;
        }
        false
    }

    /// The value of the last occurrence of flag `name`, if any.
    pub fn flag_value(&self, name: &[u8]) -> (r: Option<&Vec<u8>>)
        ensures
            match spec_flag_value(self@.flags, name@) {
                Some(v) => r matches Some(x) && x@ == v,
                None => r is None,
            },
    {
        let mut i: usize = self.flags.len();
        assert(self@.flags.take(i as int) =~= self@.flags);
        while i > 0
            invariant
                0 <= i <= self.flags@.len(),
                self@.flags.len() == self.flags@.len(),
                spec_flag_value(self@.flags, name@) == spec_flag_value(
                    self@.flags.take(i as int),
                    name@,
                ),
            decreases i,
        {
            i -= 1;
            proof {
                assert(self@.flags.take(i + 1).drop_last() =~= self@.flags.take(i as int));
                assert(self@.flags.take(i + 1).last() == self@.flags[i as int]);
                assert(self@.flags[i as int] == self.flags@[i as int]@);
            }
            if bytes::bytes_eq(self.flags[i].name.as_slice(), name) {
                match &self.flags[i].value {
                    Some(v) => {
                        return Some(v);
                    },
                    None => {
                        return None;
                    },
                }
            }
        }
        assert(self@.flags.take(0) =~= Seq::<FlagHitView>::empty());
        None
    }
}

/// Whether some occurrence of flag `name` is present.
pub open spec fn spec_has_flag(a: ArgsView, name: Seq<u8>) -> bool {
    exists|i: int| 0 <= i < a.flags.len() && #[trigger] a.flags[i].name == name
}

/// The value of the last occurrence of flag `name`.
pub open spec fn spec_flag_value(flags: Seq<FlagHitView>, name: Seq<u8>) -> Option<Seq<u8>>
    decreases flags.len(),
{
    if flags.len() == 0 {
        None
    } else if flags.last().name == name {
        flags.last().value
    } else {
        spec_flag_value(flags.drop_last(), name)
    }
}

/// Finds the declared flag with long name `name`.
fn find_long(decls: &Vec<Flag>, name: &[u8]) -> (r: Option<usize>)
    ensures
        match spec_find_long(decls@, name@) {
            Some(k) => r matches Some(i) && i == k,
            None => r is None,
        },
{
    let mut i: usize = 0;
    assert(decls@.skip(0int) =~= decls@);
    while i < decls.len()
        invariant
            0 <= i <= decls@.len(),
            spec_find_long(decls@, name@) == (match spec_find_long(decls@.skip(i as int), name@) {
                Some(k) => Some(k + i),
                None => None::<int>,
            }),
        decreases decls@.len() - i,
    {
        proof {
            assert(decls@.skip(i as int)[0] == decls@[i as int]);
            assert(decls@.skip(i as int).drop_first() =~= decls@.skip(i + 1));
        }
        if bytes::bytes_eq(decls[i].long.as_slice(), name) {
            return Some(i);
        }
        i += 1;
    }
    assert(decls@.skip(i as int) =~= Seq::<Flag>::empty());
    None
}

/// Finds the declared flag with short alias `name`.
fn find_short(decls: &Vec<Flag>, name: &[u8]) -> (r: Option<usize>)
    ensures
        match spec_find_short(decls@, name@) {
            Some(k) => r matches Some(i) && i == k,
            None => r is None,
        },
{
    let mut i: usize = 0;
    assert(decls@.skip(0int) =~= decls@);
    while i < decls.len()
        invariant
            0 <= i <= decls@.len(),
            spec_find_short(decls@, name@) == (match spec_find_short(
                decls@.skip(i as int),
                name@,
            ) {
                Some(k) => Some(k + i),
                None => None::<int>,
            }),
        decreases decls@.len() - i,
    {
        proof {
            assert(decls@.skip(i as int)[0] == decls@[i as int]);
            assert(decls@.skip(i as int).drop_first() =~= decls@.skip(i + 1));
        }
        let hit: bool = match &decls[i].short {
            Some(s) => bytes::bytes_eq(s.as_slice(), name),
            None => false,
        };
        if hit {
            return Some(i);
        }
        i += 1;
    }
    assert(decls@.skip(i as int) =~= Seq::<Flag>::empty());
    None
}

/// Parses the remainder of a line according to a command's parse mode and
/// declared flags.
pub fn from_signature(rest: &[u8], mode: ParseMode, decls: &Vec<Flag>) -> (r: Result<
    Args,
    ParseError,
>)
    ensures
        mode == ParseMode::Literal ==> (r matches Ok(a) && a@ == spec_parse_literal(rest@)),
        mode == ParseMode::Structured ==> (match spec_parse_structured(spec_words(rest@), decls@) {
            Ok(a) => r matches Ok(x) && x@ == a,
            Err(e) => r matches Err(x) && x@ == e,
        }),
{
    match mode {
        ParseMode::Literal => {
            let mut positionals: Vec<Vec<u8>> = Vec::new();
            if rest.len() > 0 {
                positionals.push(bytes::to_vec(rest));
            }
            let a = Args { positionals, flags: Vec::new() };
            assert(a@ =~= spec_parse_literal(rest@));
            Ok(a)
        },
        ParseMode::Structured => {
            let (words, _) = split_words(rest);
            parse_structured(&words, decls)
        },
    }
}

/// Structured parsing of an already-split word sequence.
pub fn parse_structured(words: &Vec<Vec<u8>>, decls: &Vec<Flag>) -> (r: Result<Args, ParseError>)
    ensures
        match spec_parse_structured(word_views(words@), decls@) {
            Ok(a) => r matches Ok(x) && x@ == a,
            Err(e) => r matches Err(x) && x@ == e,
        },
{
    let ghost wv = word_views(words@);
    let mut positionals: Vec<Vec<u8>> = Vec::new();
    let mut flags: Vec<FlagHit> = Vec::new();
    let mut i: usize = 0;
    assert(wv.skip(0int) =~= wv);
    assert(word_views(positionals@) =~= Seq::<Seq<u8>>::empty());
    assert(flags@.map_values(|h: FlagHit| h@) =~= Seq::<FlagHitView>::empty());
    while i < words.len()
        invariant
            0 <= i <= words@.len(),
            wv == word_views(words@),
            wv.len() == words@.len(),
            (match spec_parse_structured(wv.skip(i as int), decls@) {
                Ok(a) => spec_parse_structured(wv, decls@) == Ok::<ArgsView, ParseErrorView>(
                    ArgsView {
                        positionals: word_views(positionals@) + a.positionals,
                        flags: flags@.map_values(|h: FlagHit| h@) + a.flags,
                    },
                ),
                Err(e) => spec_parse_structured(wv, decls@) == Err::<ArgsView, ParseErrorView>(e),
            }),
        decreases words@.len() - i,
    {
        let ghost tail = wv.skip(i as int);
        proof {
            assert(tail[0] == wv[i as int]);
            assert(tail.drop_first() =~= wv.skip(i + 1));
        }
        let w: &Vec<u8> = &words[i];
        assert(w@ == wv[i as int]);
        let long_shaped: bool = w.len() > 2 && w[0] == 45 && w[1] == 45;
        let short_shaped: bool = !long_shaped && w.len() >= 2 && w[0] == 45 && w[1] != 45;
        if long_shaped || short_shaped {
            let strip: usize = if long_shaped {
                2
            } else {
                1
            };
            let name: Vec<u8> = tail_of(w, strip);
            let hit: Option<usize> = if long_shaped {
                find_long(decls, name.as_slice())
            } else {
                find_short(decls, name.as_slice())
            };
            proof {
                lemma_find_long_bounds(decls@, name@);
            }
            match hit {
                None => {
                    proof {
                        assert(tail.len() > 0);
                        if long_shaped {
                            assert(is_long_token(tail[0]));
                            assert(tail[0].skip(2) == name@);
                            assert(spec_find_long(decls@, tail[0].skip(2)) is None);
                        } else {
                            assert(is_short_token(tail[0]));
                            assert(!is_long_token(tail[0]));
                            assert(tail[0].skip(1) == name@);
                            assert(spec_find_short(decls@, tail[0].skip(1)) is None);
                        }
                        assert(spec_parse_structured(tail, decls@) == spec_parse_flag(
                            tail,
                            decls@,
                            None,
                        ));
                        assert(spec_parse_flag(tail, decls@, None) == Err::<
                            ArgsView,
                            ParseErrorView,
                        >(ParseErrorView::UnknownFlag(tail[0])));
                        assert(spec_parse_structured(tail, decls@) == Err::<
                            ArgsView,
                            ParseErrorView,
                        >(ParseErrorView::UnknownFlag(tail[0])));
                    }
                    return Err(ParseError::UnknownFlag(bytes::to_vec(w.as_slice())));
                },
                Some(k) => {
                    proof {
                        assert(tail.len() > 0);
                        if long_shaped {
                            assert(is_long_token(tail[0]));
                            assert(tail[0].skip(2) == name@);
                            assert(spec_find_long(decls@, tail[0].skip(2)) == Some(k as int));
                        } else {
                            assert(is_short_token(tail[0]));
                            assert(!is_long_token(tail[0]));
                            assert(tail[0].skip(1) == name@);
                            assert(spec_find_short(decls@, tail[0].skip(1)) == Some(k as int));
                        }
                        assert(spec_parse_structured(tail, decls@) == spec_parse_flag(
                            tail,
                            decls@,
                            Some(k as int),
                        ));
                    }
                    let takes_value: bool = decls[k].accepts.is_some();
                    assert(takes_value == (decls@[k as int].accepts is Some));
                    if takes_value {
                        if i + 1 >= words.len() {
                            proof {
                                assert(tail.len() == 1);
                                assert(spec_parse_flag(tail, decls@, Some(k as int)) == Err::<
                                    ArgsView,
                                    ParseErrorView,
                                >(ParseErrorView::FlagValueError(decls@[k as int].long@)));
                            }
                            return Err(ParseError::FlagValueError(bytes::to_vec(
                                decls[k].long.as_slice(),
                            )));
                        }
                        let ghost pre_flags = flags@.map_values(|h: FlagHit| h@);
                        let value: Vec<u8> = bytes::to_vec(words[i + 1].as_slice());
                        assert(value@ == wv[i + 1]);
                        assert(wv[i + 1] == tail[1]);
                        flags.push(FlagHit {
                            name: bytes::to_vec(decls[k].long.as_slice()),
                            value: Some(value),
                        });
                        proof {
                            assert(tail.skip(2) =~= wv.skip(i + 2));
                            assert(flags@.map_values(|h: FlagHit| h@) =~= pre_flags.push(
                                (FlagHitView { name: decls@[k as int].long@, value: Some(tail[1]) }),
                            ));
                            assert(hit_of(wv, decls@, i as int, 2) == (FlagHitView {
                                name: decls@[k as int].long@,
                                value: Some(tail[1]),
                            }));
                            assert(spec_parse_flag(tail, decls@, Some(k as int)) == (
                            match spec_parse_structured(wv.skip(i + 2), decls@) {
                                Ok(a) => Ok::<ArgsView, ParseErrorView>(
                                    ArgsView {
                                        positionals: a.positionals,
                                        flags: seq![hit_of(wv, decls@, i as int, 2)] + a.flags,
                                    },
                                ),
                                Err(e) => Err::<ArgsView, ParseErrorView>(e),
                            }));
                            lemma_step_flag(wv, decls@, i as int, pre_flags, word_views(
                                positionals@,
                            ), 2);
                        }
                        i += 2;
                    } else {
                        let ghost pre_flags = flags@.map_values(|h: FlagHit| h@);
                        flags.push(FlagHit {
                            name: bytes::to_vec(decls[k].long.as_slice()),
                            value: None,
                        });
                        proof {
                            assert(tail.skip(1) =~= wv.skip(i + 1));
                            assert(tail.drop_first() =~= tail.skip(1));
                            assert(flags@.map_values(|h: FlagHit| h@) =~= pre_flags.push(
                                (FlagHitView { name: decls@[k as int].long@, value: None }),
                            ));
                            assert(hit_of(wv, decls@, i as int, 1) == (FlagHitView {
                                name: decls@[k as int].long@,
                                value: None,
                            }));
                            assert(spec_parse_flag(tail, decls@, Some(k as int)) == (
                            match spec_parse_structured(wv.skip(i + 1), decls@) {
                                Ok(a) => Ok::<ArgsView, ParseErrorView>(
                                    ArgsView {
                                        positionals: a.positionals,
                                        flags: seq![hit_of(wv, decls@, i as int, 1)] + a.flags,
                                    },
                                ),
                                Err(e) => Err::<ArgsView, ParseErrorView>(e),
                            }));
                            lemma_step_flag(wv, decls@, i as int, pre_flags, word_views(
                                positionals@,
                            ), 1);
                        }
                        i += 1;
                    }
                },
            }
        } else {
            let ghost pre_pos = word_views(positionals@);
            positionals.push(bytes::to_vec(w.as_slice()));
            proof {
                assert(word_views(positionals@) =~= pre_pos.push(wv[i as int]));
                lemma_step_positional(wv, decls@, i as int, pre_pos, flags@.map_values(
                    |h: FlagHit| h@,
                ));
            }
            i += 1;
        }
    }
    assert(wv.skip(i as int) =~= Seq::<Seq<u8>>::empty());
    let a = Args { positionals, flags };
    proof {
        let fin = spec_parse_structured(wv.skip(i as int), decls@);
        assert(fin == Ok::<ArgsView, ParseErrorView>(ArgsView {
            positionals: Seq::empty(),
            flags: Seq::empty(),
        }));
        match spec_parse_structured(wv, decls@) {
            Ok(x) => {
                assert(x =~= a@);
            },
            Err(_) => {
                assert(false);
            },
        }
    }
    Ok(a)
}

/// The bytes of `w` from `strip` on.
fn tail_of(w: &Vec<u8>, strip: usize) -> (r: Vec<u8>)
    requires
        strip <= w@.len(),
    ensures
        r@ == w@.skip(strip as int),
{
    let mut r: Vec<u8> = Vec::new();
    let mut i: usize = strip;
    while i < w.len()
        invariant
            strip <= i <= w@.len(),
            r@ == w@.subrange(strip as int, i as int),
        decreases w@.len() - i,
    {
        r.push(w[i]);
        assert(r@ =~= w@.subrange(strip as int, i + 1));
        i += 1;
    }
    assert(w@.subrange(strip as int, w@.len() as int) =~= w@.skip(strip as int));
    r
}

/// Consuming a flag word (and its value word when `step == 2`) carries the
/// parse of the remaining words to a parse of the whole sequence.
proof fn lemma_step_flag(
    wv: Seq<Seq<u8>>,
    decls: Seq<Flag>,
    i: int,
    pre_flags: Seq<FlagHitView>,
    pre_pos: Seq<Seq<u8>>,
    step: int,
)
    requires
        0 <= i < wv.len(),
        step == 1 || step == 2,
        i + step <= wv.len(),
        (match spec_parse_structured(wv.skip(i), decls) {
            Ok(a) => spec_parse_structured(wv, decls) == Ok::<ArgsView, ParseErrorView>(
                ArgsView { positionals: pre_pos + a.positionals, flags: pre_flags + a.flags },
            ),
            Err(e) => spec_parse_structured(wv, decls) == Err::<ArgsView, ParseErrorView>(e),
        }),
        spec_parse_structured(wv.skip(i), decls) == (match spec_parse_structured(
            wv.skip(i + step),
            decls,
        ) {
            Ok(a) => Ok::<ArgsView, ParseErrorView>(
                ArgsView {
                    positionals: a.positionals,
                    flags: seq![hit_of(wv, decls, i, step)] + a.flags,
                },
            ),
            Err(e) => Err::<ArgsView, ParseErrorView>(e),
        }),
    ensures
        (match spec_parse_structured(wv.skip(i + step), decls) {
            Ok(a) => spec_parse_structured(wv, decls) == Ok::<ArgsView, ParseErrorView>(
                ArgsView {
                    positionals: pre_pos + a.positionals,
                    flags: pre_flags.push(hit_of(wv, decls, i, step)) + a.flags,
                },
            ),
            Err(e) => spec_parse_structured(wv, decls) == Err::<ArgsView, ParseErrorView>(e),
        }),
{
    match spec_parse_structured(wv.skip(i + step), decls) {
        Ok(a) => {
            assert(pre_flags + (seq![hit_of(wv, decls, i, step)] + a.flags) =~= pre_flags.push(
                hit_of(wv, decls, i, step),
            ) + a.flags);
        },
        Err(_) => {
        },
    }
}

/// The flag occurrence recorded when the word at `i` is consumed with
/// `step` words.
pub open spec fn hit_of(wv: Seq<Seq<u8>>, decls: Seq<Flag>, i: int, step: int) -> FlagHitView {
    let w = wv[i];
    let k = if is_long_token(w) {
        spec_find_long(decls, w.skip(2)).unwrap()
    } else {
        spec_find_short(decls, w.skip(1)).unwrap()
    };
    (FlagHitView {
        name: decls[k].long@,
        value: if step == 2 {
            Some(wv[i + 1])
        } else {
            None
        },
    })
}

/// Consuming a positional word carries the parse of the remaining words to
/// a parse of the whole sequence.
proof fn lemma_step_positional(
    wv: Seq<Seq<u8>>,
    decls: Seq<Flag>,
    i: int,
    pre_pos: Seq<Seq<u8>>,
    pre_flags: Seq<FlagHitView>,
)
    requires
        0 <= i < wv.len(),
        !is_long_token(wv[i]),
        !is_short_token(wv[i]),
        (match spec_parse_structured(wv.skip(i), decls) {
            Ok(a) => spec_parse_structured(wv, decls) == Ok::<ArgsView, ParseErrorView>(
                ArgsView { positionals: pre_pos + a.positionals, flags: pre_flags + a.flags },
            ),
            Err(e) => spec_parse_structured(wv, decls) == Err::<ArgsView, ParseErrorView>(e),
        }),
    ensures
        (match spec_parse_structured(wv.skip(i + 1), decls) {
            Ok(a) => spec_parse_structured(wv, decls) == Ok::<ArgsView, ParseErrorView>(
                ArgsView {
                    positionals: pre_pos.push(wv[i]) + a.positionals,
                    flags: pre_flags + a.flags,
                },
            ),
            Err(e) => spec_parse_structured(wv, decls) == Err::<ArgsView, ParseErrorView>(e),
        }),
{
    let tail = wv.skip(i);
    assert(tail[0] == wv[i]);
    assert(tail.drop_first() =~= wv.skip(i + 1));
    match spec_parse_structured(wv.skip(i + 1), decls) {
        Ok(a) => {
            assert(pre_pos + (seq![wv[i]] + a.positionals) =~= pre_pos.push(wv[i]) + a.positionals);
        },
        Err(_) => {
        },
    }
}

} // verus!
